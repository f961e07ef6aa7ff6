//! Laws of the prompts that a turn takes up while it runs.

use crate::facts::{
    lemma_filter_concat, lemma_filter_contains, lemma_filter_none, lemma_filter_push, lemma_first,
    lemma_order_contains, lemma_put_first,
};
use crate::json::json_strings;
use crate::laws::reading::{lemma_last_of_session, lemma_listing};
use crate::state::checkpoint::{
    artifact_of, by_artifact_age, by_image_age, by_kind_and_name, checkpoint_of, image_of, item_of,
    question_of,
};
use crate::state::db::DbModel;
use crate::state::journal::{
    by_index, largest_event_id, segment_at, segment_of, uninterrupted, unless_blank,
};
use crate::state::keys::{
    lemma_unique_at, lemma_unique_change, lemma_unique_filter, lemma_unique_ordered, unique,
};
use crate::state::queue::{
    batch_taken_up, by_prompt_seq, first_parts, folded_into, id_and_content, prompt_id_of,
    running_on, running_turn, said_before, stale_taken_up, taken_up, taken_up_after,
    turn_with_queue, waiting_among, waiting_at, waiting_in, waiting_prompt, waiting_prompt_at,
    waiting_with_id, Preceding,
};
use crate::state::rows::{CheckpointRowModel, QuestionRowModel, QueuedPromptRowModel};
use crate::state::sessions::by_seq;
use crate::state::types::TurnRedoCheckpointPayloadModel;
use crate::table::{any, count, first, not, order_by};
use crate::text::trimmed;
use vstd::prelude::*;

verus! {

/// Whether a prompt was taken up by a turn at a time, in a wording for the model,
/// and is otherwise as it was.
pub open spec fn joins(
    is_now: QueuedPromptRowModel,
    was: QueuedPromptRowModel,
    turn_id: Seq<char>,
    context: Seq<char>,
    now: Seq<char>,
) -> bool {
    &&& was.status == "queued"@
    &&& is_now.status == "consumed"@
    &&& is_now.turn_id == Some(turn_id)
    &&& is_now.context_content == Some(context)
    &&& is_now.consumed_at == Some(now)
    &&& is_now.prompt_id == was.prompt_id
    &&& is_now.seq == was.seq
    &&& is_now.session_id == was.session_id
    &&& is_now.queue_session_id == was.queue_session_id
    &&& is_now.content == was.content
    &&& is_now.display_content == was.display_content
    &&& is_now.attachments == was.attachments
    &&& is_now.submitted_at == was.submitted_at
}

proof fn lemma_queued_is_not_consumed()
    ensures
        "consumed"@ != "queued"@,
{
    reveal_strlit("consumed");
    reveal_strlit("queued");
    assert("consumed"@.len() != "queued"@.len());
}

/// The only row that a predicate counts, where ids are told apart.
proof fn lemma_counted<V, K>(s: Seq<V>, p: spec_fn(V) -> bool, key: spec_fn(V) -> K, i: int)
    requires
        unique(s, key),
        0 <= i < s.len(),
        forall|a: int| 0 <= a < s.len() && p(#[trigger] s[a]) ==> key(s[a]) == key(s[i]),
    ensures
        count(s, p) == if p(s[i]) {
            1nat
        } else {
            0nat
        },
{
    let head = s.take(i);
    let tail = s.skip(i + 1);
    if any(head, p) {
        let k = choose|k: int| 0 <= k < head.len() && p(#[trigger] head[k]);
        assert(p(s[k]));
        lemma_unique_at(s, key, k, i);
    }
    if any(tail, p) {
        let k = choose|k: int| 0 <= k < tail.len() && p(#[trigger] tail[k]);
        assert(s[k + i + 1] == tail[k]);
        lemma_unique_at(s, key, k + i + 1, i);
    }
    lemma_filter_none(head, p);
    lemma_filter_none(tail, p);
    lemma_filter_push(head, s[i], p);
    lemma_filter_concat(head.push(s[i]), tail, p);
    assert(head.push(s[i]) + tail =~= s);
}

/// A predicate that counts something holds somewhere.
proof fn lemma_counted_somewhere<V>(s: Seq<V>, p: spec_fn(V) -> bool)
    requires
        count(s, p) > 0,
    ensures
        any(s, p),
{
    let mine = s.filter(p);
    assert(mine.contains(mine[0]));
    lemma_filter_contains(s, p, mine[0]);
    let i = s.index_of(mine[0]);
    assert(p(s[i]));
}

proof fn lemma_batch(
    rows: Seq<QueuedPromptRowModel>,
    session_id: Seq<char>,
    queue: Seq<char>,
    turn_id: Seq<char>,
    batch: Seq<(Seq<char>, Seq<char>)>,
    said: Preceding,
    now: Seq<char>,
    n: nat,
)
    requires
        unique(rows, prompt_id_of()),
        n <= batch.len(),
        batch_taken_up(rows, session_id, queue, turn_id, batch, said, now, n) is Ok,
    ensures
        ({
            let done = batch_taken_up(
                rows,
                session_id,
                queue,
                turn_id,
                batch,
                said,
                now,
                n,
            )->Ok_0;
            &&& done.len() == rows.len()
            &&& unique(done, prompt_id_of())
            &&& forall|i: int|
                0 <= i < rows.len() ==> (#[trigger] done[i]).prompt_id == rows[i].prompt_id
            &&& forall|i: int, k: int|
                0 <= i < rows.len() && 0 <= k < n && (#[trigger] rows[i]).prompt_id == (
                #[trigger] batch[k]).0 ==> {
                    &&& joins(done[i], rows[i], turn_id, batch[k].1, now)
                    &&& rows[i].session_id == session_id
                    &&& rows[i].queue_session_id == Some(queue)
                    &&& done[i].preceding_assistant_provider_id == said.provider_id
                    &&& done[i].preceding_assistant_model == said.model
                    &&& k == 0 ==> done[i].preceding_assistant_content == said.content
                        && done[i].preceding_assistant_reasoning == said.reasoning
                    &&& k > 0 ==> done[i].preceding_assistant_content is None
                        && done[i].preceding_assistant_reasoning is None
                }
            &&& forall|i: int|
                0 <= i < rows.len() && (forall|k: int|
                    0 <= k < n ==> (#[trigger] batch[k]).0 != rows[i].prompt_id)
                    ==> #[trigger] done[i] == rows[i]
            &&& forall|k: int|
                0 <= k < n ==> exists|i: int|
                    0 <= i < rows.len() && (#[trigger] rows[i]).prompt_id == (
                    #[trigger] batch[k]).0
        }),
    decreases n,
{
    if n > 0 {
        let m = (n - 1) as nat;
        lemma_batch(rows, session_id, queue, turn_id, batch, said, now, m);
        lemma_queued_is_not_consumed();
        let before = batch_taken_up(
            rows,
            session_id,
            queue,
            turn_id,
            batch,
            said,
            now,
            m,
        )->Ok_0;
        let done = batch_taken_up(rows, session_id, queue, turn_id, batch, said, now, n)->Ok_0;
        let (prompt_id, context) = batch[n - 1];
        let p = waiting_prompt(prompt_id, session_id, queue);
        let f = taken_up_after(now, turn_id, context, said_before(said, n - 1));
        lemma_unique_change(before, p, f, prompt_id_of());
        lemma_counted_somewhere(before, p);
        let at = choose|i: int| 0 <= i < before.len() && p(#[trigger] before[i]);
        assert(rows[at].prompt_id == batch[n - 1].0);
        // It was not taken up before.
        assert forall|k: int| 0 <= k < m implies (#[trigger] batch[k]).0 != rows[at].prompt_id by {
            if batch[k].0 == rows[at].prompt_id {
                assert(joins(before[at], rows[at], turn_id, batch[k].1, now));
            }
        }
        assert(before[at] == rows[at]);
        assert forall|i: int| 0 <= i < rows.len() && i != at implies #[trigger] done[i]
            == before[i] by {
            if p(before[i]) {
                lemma_unique_at(before, prompt_id_of(), i, at);
            }
        }
        assert forall|i: int, k: int|
            0 <= i < rows.len() && 0 <= k < n && (#[trigger] rows[i]).prompt_id == (
            #[trigger] batch[k]).0 implies {
            &&& joins(done[i], rows[i], turn_id, batch[k].1, now)
            &&& rows[i].session_id == session_id
            &&& rows[i].queue_session_id == Some(queue)
            &&& done[i].preceding_assistant_provider_id == said.provider_id
            &&& done[i].preceding_assistant_model == said.model
            &&& k == 0 ==> done[i].preceding_assistant_content == said.content
                && done[i].preceding_assistant_reasoning == said.reasoning
            &&& k > 0 ==> done[i].preceding_assistant_content is None
                && done[i].preceding_assistant_reasoning is None
        } by {
            if k == m {
                lemma_unique_at(rows, prompt_id_of(), i, at);
            } else {
                assert(i != at);
                assert(done[i] == before[i]);
            }
        }
        assert forall|i: int|
            0 <= i < rows.len() && (forall|k: int|
                0 <= k < n ==> (#[trigger] batch[k]).0
                    != rows[i].prompt_id) implies #[trigger] done[i] == rows[i] by {
            assert(batch[n - 1].0 != rows[i].prompt_id);
            assert(i != at);
            assert(done[i] == before[i]);
        }
        assert forall|i: int| 0 <= i < rows.len() implies (#[trigger] done[i]).prompt_id
            == rows[i].prompt_id by {
            assert(before[i].prompt_id == rows[i].prompt_id);
        }
    }
}

/// A running turn takes up the prompts of a batch: each belongs to the turn from
/// now on, in the wording that the model was given. The first of them tells what
/// the model had said before. All other prompts wait, or were taken up, as before.
pub proof fn law_batch_joins_the_turn(
    db: DbModel,
    session_id: Seq<char>,
    turn_id: Seq<char>,
    batch: Seq<(Seq<char>, Seq<char>)>,
    said: Preceding,
    queue: Seq<char>,
    checkpoint: Option<TurnRedoCheckpointPayloadModel>,
    now: Seq<char>,
    i: int,
)
    requires
        db.well_formed(),
        db.consume_queued_prompts(session_id, turn_id, batch, said, queue, checkpoint, now) is Ok,
        0 <= i < db.queued_prompts.len(),
    ensures
        ({
            let after = db.consume_queued_prompts(
                session_id,
                turn_id,
                batch,
                said,
                queue,
                checkpoint,
                now,
            )->Ok_0.0;
            let was = db.queued_prompts[i];
            let row = after.queued_prompts[i];
            &&& after.queued_prompts.len() == db.queued_prompts.len()
            &&& forall|k: int|
                0 <= k < batch.len() && (#[trigger] batch[k]).0 == was.prompt_id ==> {
                    &&& joins(row, was, turn_id, batch[k].1, now)
                    &&& was.session_id == session_id
                    &&& was.queue_session_id == Some(queue)
                    &&& row.preceding_assistant_provider_id == said.provider_id
                    &&& row.preceding_assistant_model == said.model
                    &&& k == 0 ==> row.preceding_assistant_content == said.content
                        && row.preceding_assistant_reasoning == said.reasoning
                    &&& k > 0 ==> row.preceding_assistant_content is None
                        && row.preceding_assistant_reasoning is None
                }
            &&& (forall|k: int| 0 <= k < batch.len() ==> (#[trigger] batch[k]).0 != was.prompt_id)
                ==> row == was
            &&& after.turns == db.turns
            &&& after.questions == db.questions
            &&& batch.len() > 0 ==> exists|t: int|
                0 <= t < db.turns.len() && (#[trigger] db.turns[t]).turn_id == turn_id
                    && db.turns[t].status == "running"@
        }),
{
    if batch.len() > 0 {
        lemma_batch(
            db.queued_prompts,
            session_id,
            queue,
            turn_id,
            batch,
            said,
            now,
            batch.len(),
        );
        lemma_first(db.turns, running_turn(turn_id));
        let turn = first(db.turns, running_turn(turn_id))->0;
        let t = db.turns.index_of(turn);
        assert(db.turns[t].turn_id == turn_id);
    }
}

/// Where a turn takes up prompts, a checkpoint for a redo of them is kept: which
/// prompts they were and, where what was captured is not too long, how the turn
/// stood then: how many questions were answered, which pictures and files it had
/// made, and which tools were loaded.
pub proof fn law_taking_up_keeps_a_checkpoint(
    db: DbModel,
    session_id: Seq<char>,
    turn_id: Seq<char>,
    batch: Seq<(Seq<char>, Seq<char>)>,
    said: Preceding,
    queue: Seq<char>,
    captured: TurnRedoCheckpointPayloadModel,
    now: Seq<char>,
)
    requires
        batch.len() > 0,
        db.consume_queued_prompts(
            session_id,
            turn_id,
            batch,
            said,
            queue,
            Some(captured),
            now,
        ) is Ok,
    ensures
        ({
            let after = db.consume_queued_prompts(
                session_id,
                turn_id,
                batch,
                said,
                queue,
                Some(captured),
                now,
            )->Ok_0.0;
            &&& first(after.checkpoints, checkpoint_of(turn_id)) matches Some(kept)
            &&& kept.turn_id == turn_id
            &&& kept.batch_prompt_ids == json_strings(
                batch.map_values(|p: (Seq<char>, Seq<char>)| p.0),
            )
            &&& kept.created_at == now
            &&& kept.payload is None ==> kept.unavailable_reason is Some
            &&& kept.payload matches Some(then) ==> {
                &&& kept.unavailable_reason is None
                &&& then.replay_messages == captured.replay_messages
                &&& then.prefix_tool_reports == captured.prefix_tool_reports
                &&& then.tool_rounds == captured.tool_rounds
                &&& then.question_rounds == captured.question_rounds
                &&& then.prefix_question_count == db.questions.filter(
                    |q: QuestionRowModel| q.turn_id == turn_id,
                ).len() as usize
                &&& forall|id: Seq<char>| #[trigger]
                    then.prefix_image_asset_ids.contains(id) == exists|k: int|
                        0 <= k < db.images.len() && (#[trigger] db.images[k]).asset.turn_id
                            == turn_id && db.images[k].asset.asset_id == id
                &&& forall|id: Seq<char>| #[trigger]
                    then.prefix_artifact_asset_ids.contains(id) == exists|k: int|
                        0 <= k < db.artifacts.len() && (#[trigger] db.artifacts[k]).asset.turn_id
                            == turn_id && db.artifacts[k].asset.asset_id == id
                &&& forall|item: (Seq<char>, Seq<char>, Option<Seq<char>>)| #[trigger]
                    then.loaded_items.contains(item) == exists|k: int|
                        0 <= k < db.loaded_items.len() && (
                        #[trigger] db.loaded_items[k]).session_id == session_id
                            && db.loaded_items[k].kind == item.0 && db.loaded_items[k].name
                            == item.1 && db.loaded_items[k].source_turn_id == item.2
            }
        }),
{
    let row = db.checkpoint_row(session_id, turn_id, first_parts(batch), Some(captured), now);
    assert(first_parts(batch) =~= batch.map_values(|p: (Seq<char>, Seq<char>)| p.0));
    let q = checkpoint_of(turn_id);
    let f = |r: CheckpointRowModel| row;
    lemma_put_first(db.checkpoints, q, f, row);
    lemma_first(db.checkpoints, q);
    if let Some(then) = row.payload {
        lemma_captured(db, session_id, turn_id, captured);
    }
}

proof fn lemma_captured(
    db: DbModel,
    session_id: Seq<char>,
    turn_id: Seq<char>,
    captured: TurnRedoCheckpointPayloadModel,
)
    ensures
        ({
            let then = db.captured(session_id, turn_id, captured);
            &&& then.prefix_question_count == db.questions.filter(
                |q: QuestionRowModel| q.turn_id == turn_id,
            ).len() as usize
            &&& forall|id: Seq<char>| #[trigger]
                then.prefix_image_asset_ids.contains(id) == exists|k: int|
                    0 <= k < db.images.len() && (#[trigger] db.images[k]).asset.turn_id == turn_id
                        && db.images[k].asset.asset_id == id
            &&& forall|id: Seq<char>| #[trigger]
                then.prefix_artifact_asset_ids.contains(id) == exists|k: int|
                    0 <= k < db.artifacts.len() && (#[trigger] db.artifacts[k]).asset.turn_id
                        == turn_id && db.artifacts[k].asset.asset_id == id
            &&& forall|item: (Seq<char>, Seq<char>, Option<Seq<char>>)| #[trigger]
                then.loaded_items.contains(item) == exists|k: int|
                    0 <= k < db.loaded_items.len() && (#[trigger] db.loaded_items[k]).session_id
                        == session_id && db.loaded_items[k].kind == item.0
                        && db.loaded_items[k].name == item.1 && db.loaded_items[k].source_turn_id
                        == item.2
        }),
{
    let then = db.captured(session_id, turn_id, captured);
    assert(question_of(turn_id) =~= |
        q: QuestionRowModel,
    | q.turn_id == turn_id);
    let p = image_of(turn_id);
    let lt = by_image_age();
    let images = order_by(db.images.filter(p), lt);
    assert forall|id: Seq<char>| #[trigger]
        then.prefix_image_asset_ids.contains(id) == exists|k: int|
            0 <= k < db.images.len() && (#[trigger] db.images[k]).asset.turn_id == turn_id
                && db.images[k].asset.asset_id == id by {
        if then.prefix_image_asset_ids.contains(id) {
            let k = then.prefix_image_asset_ids.index_of(id);
            assert(images.contains(images[k]));
            lemma_order_contains(db.images.filter(p), lt, images[k]);
            lemma_filter_contains(db.images, p, images[k]);
            let j = db.images.index_of(images[k]);
            assert(db.images[j].asset.asset_id == id);
        }
        if exists|k: int|
            0 <= k < db.images.len() && (#[trigger] db.images[k]).asset.turn_id == turn_id
                && db.images[k].asset.asset_id == id {
            let k = choose|k: int|
                0 <= k < db.images.len() && (#[trigger] db.images[k]).asset.turn_id == turn_id
                    && db.images[k].asset.asset_id == id;
            assert(db.images.contains(db.images[k]));
            lemma_filter_contains(db.images, p, db.images[k]);
            lemma_order_contains(db.images.filter(p), lt, db.images[k]);
            let j = images.index_of(db.images[k]);
            assert(then.prefix_image_asset_ids[j] == id);
        }
    }
    let p = artifact_of(turn_id);
    let lt = by_artifact_age();
    let artifacts = order_by(db.artifacts.filter(p), lt);
    assert forall|id: Seq<char>| #[trigger]
        then.prefix_artifact_asset_ids.contains(id) == exists|k: int|
            0 <= k < db.artifacts.len() && (#[trigger] db.artifacts[k]).asset.turn_id == turn_id
                && db.artifacts[k].asset.asset_id == id by {
        if then.prefix_artifact_asset_ids.contains(id) {
            let k = then.prefix_artifact_asset_ids.index_of(id);
            assert(artifacts.contains(artifacts[k]));
            lemma_order_contains(db.artifacts.filter(p), lt, artifacts[k]);
            lemma_filter_contains(db.artifacts, p, artifacts[k]);
            let j = db.artifacts.index_of(artifacts[k]);
            assert(db.artifacts[j].asset.asset_id == id);
        }
        if exists|k: int|
            0 <= k < db.artifacts.len() && (#[trigger] db.artifacts[k]).asset.turn_id == turn_id
                && db.artifacts[k].asset.asset_id == id {
            let k = choose|k: int|
                0 <= k < db.artifacts.len() && (#[trigger] db.artifacts[k]).asset.turn_id
                    == turn_id && db.artifacts[k].asset.asset_id == id;
            assert(db.artifacts.contains(db.artifacts[k]));
            lemma_filter_contains(db.artifacts, p, db.artifacts[k]);
            lemma_order_contains(db.artifacts.filter(p), lt, db.artifacts[k]);
            let j = artifacts.index_of(db.artifacts[k]);
            assert(then.prefix_artifact_asset_ids[j] == id);
        }
    }
    let p = item_of(session_id);
    let lt = by_kind_and_name();
    let items = order_by(db.loaded_items.filter(p), lt);
    assert forall|item: (Seq<char>, Seq<char>, Option<Seq<char>>)| #[trigger]
        then.loaded_items.contains(item) == exists|k: int|
            0 <= k < db.loaded_items.len() && (#[trigger] db.loaded_items[k]).session_id
                == session_id && db.loaded_items[k].kind == item.0 && db.loaded_items[k].name
                == item.1 && db.loaded_items[k].source_turn_id == item.2 by {
        if then.loaded_items.contains(item) {
            let k = then.loaded_items.index_of(item);
            assert(items.contains(items[k]));
            lemma_order_contains(db.loaded_items.filter(p), lt, items[k]);
            lemma_filter_contains(db.loaded_items, p, items[k]);
            let j = db.loaded_items.index_of(items[k]);
            assert(db.loaded_items[j].kind == item.0);
        }
        if exists|k: int|
            0 <= k < db.loaded_items.len() && (#[trigger] db.loaded_items[k]).session_id
                == session_id && db.loaded_items[k].kind == item.0 && db.loaded_items[k].name
                == item.1 && db.loaded_items[k].source_turn_id == item.2 {
            let k = choose|k: int|
                0 <= k < db.loaded_items.len() && (#[trigger] db.loaded_items[k]).session_id
                    == session_id && db.loaded_items[k].kind == item.0
                    && db.loaded_items[k].name == item.1 && db.loaded_items[k].source_turn_id
                    == item.2;
            assert(db.loaded_items.contains(db.loaded_items[k]));
            lemma_filter_contains(db.loaded_items, p, db.loaded_items[k]);
            lemma_order_contains(db.loaded_items.filter(p), lt, db.loaded_items[k]);
            let j = items.index_of(db.loaded_items[k]);
            assert(then.loaded_items[j] == item);
        }
    }
}

/// The next stretch of a generation has a place that no stretch has.
proof fn lemma_next_stretch(db: DbModel, turn_id: Seq<char>, revision: i64)
    requires
        db.current_segment(turn_id, revision) matches Some(segment) && segment.segment_index
            < i64::MAX,
    ensures
        ({
            let segment = db.current_segment(turn_id, revision)->0;
            !any(db.segments, segment_at(turn_id, revision, (segment.segment_index + 1) as i64))
        }),
{
    let p = segment_of(turn_id, revision);
    let ordered = order_by(db.segments.filter(p), by_index());
    let segment = db.current_segment(turn_id, revision)->0;
    let next = (segment.segment_index + 1) as i64;
    lemma_listing(db.segments, p, by_index());
    let q = segment_at(turn_id, revision, next);
    if any(db.segments, q) {
        let i = choose|i: int| 0 <= i < db.segments.len() && q(#[trigger] db.segments[i]);
        assert(db.segments.contains(db.segments[i]));
        assert(ordered.contains(db.segments[i]));
        let k = ordered.index_of(db.segments[i]);
        assert(ordered[ordered.len() - 1] == segment);
        if k < ordered.len() - 1 {
            assert(!by_index()(ordered[ordered.len() - 1], ordered[k]));
        }
    }
}

/// Prompts that wait in the queue of a running turn can be taken up by it, each of
/// them once.
pub proof fn law_waiting_prompts_can_join(
    db: DbModel,
    session_id: Seq<char>,
    turn_id: Seq<char>,
    batch: Seq<(Seq<char>, Seq<char>)>,
    said: Preceding,
    queue: Seq<char>,
    checkpoint: Option<TurnRedoCheckpointPayloadModel>,
    now: Seq<char>,
    t: int,
)
    requires
        db.well_formed(),
        0 <= t < db.turns.len(),
        db.turns[t].turn_id == turn_id,
        db.turns[t].status == "running"@,
        forall|a: int, b: int|
            0 <= a < b < batch.len() ==> (#[trigger] batch[a]).0 != (#[trigger] batch[b]).0,
        forall|k: int|
            0 <= k < batch.len() ==> waits(
                db.queued_prompts,
                (#[trigger] batch[k]).0,
                session_id,
                queue,
            ),
        forall|i: int|
            0 <= i < db.segments.len() ==> (#[trigger] db.segments[i]).segment_index < i64::MAX,
        largest_event_id(db.events) < i64::MAX,
    ensures
        db.consume_queued_prompts(session_id, turn_id, batch, said, queue, checkpoint, now) is Ok,
{
    if batch.len() > 0 {
        let running = running_turn(turn_id);
        assert(running(db.turns[t]));
        lemma_first(db.turns, running);
        let turn = first(db.turns, running)->0;
        lemma_batch_waits(
            db.queued_prompts,
            session_id,
            queue,
            turn_id,
            batch,
            said,
            now,
            batch.len(),
        );
        let prompts = batch_taken_up(
            db.queued_prompts,
            session_id,
            queue,
            turn_id,
            batch,
            said,
            now,
            batch.len(),
        )->Ok_0;
        let row = db.checkpoint_row(session_id, turn_id, first_parts(batch), checkpoint, now);
        let kept = DbModel { queued_prompts: prompts, ..db }.with_checkpoint(row);
        let begun = kept.journal_begun(turn_id, turn.revision, now);
        let p = segment_of(turn_id, turn.revision);
        let ordered = order_by(begun.segments.filter(p), by_index());
        lemma_listing(begun.segments, p, by_index());
        assert(any(begun.segments, p)) by {
            let q = segment_at(turn_id, turn.revision, 0);
            if any(kept.segments, q) {
                let i = choose|i: int|
                    0 <= i < kept.segments.len() && q(#[trigger] kept.segments[i]);
                assert(p(begun.segments[i]));
            } else {
                assert(p(begun.segments[begun.segments.len() - 1]));
            }
        }
        let i = choose|i: int| 0 <= i < begun.segments.len() && p(#[trigger] begun.segments[i]);
        assert(begun.segments.contains(begun.segments[i]));
        assert(ordered.contains(begun.segments[i]));
        let segment = ordered.last();
        assert(ordered[ordered.len() - 1] == segment);
        assert(ordered.contains(segment));
        let j = begun.segments.index_of(segment);
        assert(begun.segments[j].segment_index < i64::MAX);
        lemma_next_stretch(begun, turn_id, turn.revision);
    }
}

/// Whether a prompt waits in a queue of a session.
pub open spec fn waits(
    rows: Seq<QueuedPromptRowModel>,
    prompt_id: Seq<char>,
    session_id: Seq<char>,
    queue: Seq<char>,
) -> bool {
    exists|i: int|
        0 <= i < rows.len() && (#[trigger] rows[i]).prompt_id == prompt_id && rows[i].status
            == "queued"@ && rows[i].session_id == session_id && rows[i].queue_session_id == Some(
            queue,
        )
}

proof fn lemma_batch_waits(
    rows: Seq<QueuedPromptRowModel>,
    session_id: Seq<char>,
    queue: Seq<char>,
    turn_id: Seq<char>,
    batch: Seq<(Seq<char>, Seq<char>)>,
    said: Preceding,
    now: Seq<char>,
    n: nat,
)
    requires
        unique(rows, prompt_id_of()),
        n <= batch.len(),
        forall|a: int, b: int|
            0 <= a < b < batch.len() ==> (#[trigger] batch[a]).0 != (#[trigger] batch[b]).0,
        forall|k: int|
            0 <= k < batch.len() ==> waits(rows, (#[trigger] batch[k]).0, session_id, queue),
    ensures
        batch_taken_up(rows, session_id, queue, turn_id, batch, said, now, n) is Ok,
    decreases n,
{
    if n > 0 {
        let m = (n - 1) as nat;
        lemma_batch_waits(rows, session_id, queue, turn_id, batch, said, now, m);
        lemma_batch(rows, session_id, queue, turn_id, batch, said, now, m);
        let before = batch_taken_up(
            rows,
            session_id,
            queue,
            turn_id,
            batch,
            said,
            now,
            m,
        )->Ok_0;
        let id = batch[n - 1].0;
        assert(waits(rows, batch[n - 1].0, session_id, queue));
        let i = choose|i: int|
            0 <= i < rows.len() && (#[trigger] rows[i]).prompt_id == id && rows[i].status
                == "queued"@ && rows[i].session_id == session_id && rows[i].queue_session_id
                == Some(queue);
        assert forall|k: int| 0 <= k < m implies (#[trigger] batch[k]).0 != rows[i].prompt_id by {
            assert(batch[k].0 != batch[n - 1].0);
        }
        assert(before[i] == rows[i]);
        let p = waiting_prompt(id, session_id, queue);
        assert(p(before[i]));
        lemma_counted(before, p, prompt_id_of(), i);
    }
}

/// A prompt that is withdrawn leaves its queue, and no other prompt does. Whether
/// there was one is told.
pub proof fn law_withdrawn_prompt_leaves(
    db: DbModel,
    session_id: Seq<char>,
    prompt_id: Seq<char>,
    queue: Seq<char>,
    prompt: QueuedPromptRowModel,
)
    requires
        db.well_formed(),
    ensures
        ({
            let (after, there) = db.remove_queued_prompt(session_id, prompt_id, queue);
            &&& there == waits(db.queued_prompts, prompt_id, session_id, queue)
            &&& after.queued_prompts.contains(prompt) == (db.queued_prompts.contains(prompt) && !(
            prompt.prompt_id == prompt_id && prompt.status == "queued"@ && prompt.session_id
                == session_id && prompt.queue_session_id == Some(queue)))
            &&& after == (DbModel { queued_prompts: after.queued_prompts, ..db })
        }),
{
    let p = waiting_prompt(prompt_id, session_id, queue);
    lemma_filter_contains(db.queued_prompts, not(p), prompt);
    if waits(db.queued_prompts, prompt_id, session_id, queue) {
        let rows = db.queued_prompts;
        let i = choose|i: int|
            0 <= i < rows.len() && (#[trigger] rows[i]).prompt_id == prompt_id && rows[i].status
                == "queued"@ && rows[i].session_id == session_id && rows[i].queue_session_id
                == Some(queue);
        assert(p(rows[i]));
        lemma_counted(rows, p, prompt_id_of(), i);
    } else {
        if any(db.queued_prompts, p) {
            let i = choose|i: int|
                0 <= i < db.queued_prompts.len() && p(#[trigger] db.queued_prompts[i]);
            assert(db.queued_prompts[i].prompt_id == prompt_id);
        }
        lemma_filter_none(db.queued_prompts, p);
    }
}

/// Clearing a queue takes all prompts that wait in it, tells their ids in their
/// order, and takes nothing else.
pub proof fn law_cleared_queue_tells_its_prompts(
    db: DbModel,
    session_id: Seq<char>,
    queue: Seq<char>,
    prompt: QueuedPromptRowModel,
)
    ensures
        ({
            let (after, ids) = db.delete_queued_prompts(session_id, queue);
            let waited = prompt.status == "queued"@ && prompt.session_id == session_id
                && prompt.queue_session_id == Some(queue);
            &&& after.queued_prompts.contains(prompt) == (db.queued_prompts.contains(prompt)
                && !waited)
            &&& db.queued_prompts.contains(prompt) && waited ==> ids.contains(prompt.prompt_id)
            &&& ids.len() == db.queued_prompts.filter(
                |r: QueuedPromptRowModel|
                    r.status == "queued"@ && r.session_id == session_id && r.queue_session_id
                        == Some(queue),
            ).len()
            &&& after == (DbModel { queued_prompts: after.queued_prompts, ..db })
        }),
{
    let p = waiting_in(session_id, queue);
    assert(p =~= |r: QueuedPromptRowModel|
        r.status == "queued"@ && r.session_id == session_id && r.queue_session_id == Some(queue));
    lemma_filter_contains(db.queued_prompts, not(p), prompt);
    lemma_listing(db.queued_prompts, p, by_prompt_seq());
    let rows = db.waiting(session_id, queue);
    if db.queued_prompts.contains(prompt) && p(prompt) {
        assert(rows.contains(prompt));
        let k = rows.index_of(prompt);
        assert(rows.map_values(prompt_id_of())[k] == prompt.prompt_id);
    }
}

proof fn lemma_stale_batch(
    rows: Seq<QueuedPromptRowModel>,
    queue: Seq<char>,
    turn_id: Seq<char>,
    batch: Seq<(Seq<char>, Seq<char>)>,
    content: Option<Seq<char>>,
    reasoning: Option<Seq<char>>,
    now: Seq<char>,
    n: nat,
)
    requires
        unique(rows, prompt_id_of()),
        n <= batch.len(),
        stale_taken_up(rows, queue, turn_id, batch, content, reasoning, now, n) is Ok,
    ensures
        ({
            let done = stale_taken_up(
                rows,
                queue,
                turn_id,
                batch,
                content,
                reasoning,
                now,
                n,
            )->Ok_0;
            &&& done.len() == rows.len()
            &&& unique(done, prompt_id_of())
            &&& forall|i: int|
                0 <= i < rows.len() ==> (#[trigger] done[i]).prompt_id == rows[i].prompt_id
            &&& forall|i: int, k: int|
                0 <= i < rows.len() && 0 <= k < n && (#[trigger] rows[i]).prompt_id == (
                #[trigger] batch[k]).0 ==> {
                    &&& joins(done[i], rows[i], turn_id, batch[k].1, now)
                    &&& rows[i].queue_session_id == Some(queue)
                    &&& k == 0 ==> done[i].preceding_assistant_content == content
                        && done[i].preceding_assistant_reasoning == reasoning
                    &&& k > 0 ==> done[i].preceding_assistant_content is None
                        && done[i].preceding_assistant_reasoning is None
                }
            &&& forall|i: int|
                0 <= i < rows.len() && (forall|k: int|
                    0 <= k < n ==> (#[trigger] batch[k]).0 != rows[i].prompt_id)
                    ==> #[trigger] done[i] == rows[i]
        }),
    decreases n,
{
    if n > 0 {
        let m = (n - 1) as nat;
        lemma_stale_batch(rows, queue, turn_id, batch, content, reasoning, now, m);
        lemma_queued_is_not_consumed();
        let before = stale_taken_up(
            rows,
            queue,
            turn_id,
            batch,
            content,
            reasoning,
            now,
            m,
        )->Ok_0;
        let done = stale_taken_up(
            rows,
            queue,
            turn_id,
            batch,
            content,
            reasoning,
            now,
            n,
        )->Ok_0;
        let (prompt_id, context) = batch[n - 1];
        let p = waiting_prompt_at(prompt_id, queue);
        let (c, r) = if n == 1 {
            (content, reasoning)
        } else {
            (None, None)
        };
        let f = taken_up(now, turn_id, Some(context), c, r);
        lemma_unique_change(before, p, f, prompt_id_of());
        lemma_counted_somewhere(before, p);
        let at = choose|i: int| 0 <= i < before.len() && p(#[trigger] before[i]);
        assert(rows[at].prompt_id == batch[n - 1].0);
        assert forall|k: int| 0 <= k < m implies (#[trigger] batch[k]).0 != rows[at].prompt_id by {
            if batch[k].0 == rows[at].prompt_id {
                assert(joins(before[at], rows[at], turn_id, batch[k].1, now));
            }
        }
        assert(before[at] == rows[at]);
        assert forall|i: int| 0 <= i < rows.len() && i != at implies #[trigger] done[i]
            == before[i] by {
            if p(before[i]) {
                lemma_unique_at(before, prompt_id_of(), i, at);
            }
        }
        assert forall|i: int, k: int|
            0 <= i < rows.len() && 0 <= k < n && (#[trigger] rows[i]).prompt_id == (
            #[trigger] batch[k]).0 implies {
            &&& joins(done[i], rows[i], turn_id, batch[k].1, now)
            &&& rows[i].queue_session_id == Some(queue)
            &&& k == 0 ==> done[i].preceding_assistant_content == content
                && done[i].preceding_assistant_reasoning == reasoning
            &&& k > 0 ==> done[i].preceding_assistant_content is None
                && done[i].preceding_assistant_reasoning is None
        } by {
            if k == m {
                lemma_unique_at(rows, prompt_id_of(), i, at);
            } else {
                assert(i != at);
                assert(done[i] == before[i]);
            }
        }
        assert forall|i: int|
            0 <= i < rows.len() && (forall|k: int|
                0 <= k < n ==> (#[trigger] batch[k]).0
                    != rows[i].prompt_id) implies #[trigger] done[i] == rows[i] by {
            assert(batch[n - 1].0 != rows[i].prompt_id);
            assert(i != at);
            assert(done[i] == before[i]);
        }
        assert forall|i: int| 0 <= i < rows.len() implies (#[trigger] done[i]).prompt_id
            == rows[i].prompt_id by {
            assert(before[i].prompt_id == rows[i].prompt_id);
        }
    }
}

/// The prompts that wait for a turn whose process died are not lost: each of them
/// belongs to the turn from now on, in its own words. What the turn had said in the
/// stretch that was running stands before the first of them. Prompts that wait
/// elsewhere go on waiting.
pub proof fn law_waiting_prompts_join_the_dead_turn(
    db: DbModel,
    turn_id: Seq<char>,
    revision: i64,
    queue: Seq<char>,
    now: Seq<char>,
    i: int,
)
    requires
        db.well_formed(),
        db.stale_prompts_consumed(turn_id, revision, Some(queue), now) is Ok,
        0 <= i < db.queued_prompts.len(),
    ensures
        ({
            let after = db.stale_prompts_consumed(turn_id, revision, Some(queue), now)->Ok_0;
            let was = db.queued_prompts[i];
            let row = after.queued_prompts[i];
            let waited = was.status == "queued"@ && was.queue_session_id == Some(queue);
            &&& after.queued_prompts.len() == db.queued_prompts.len()
            &&& waited ==> joins(row, was, turn_id, was.content, now)
            &&& !waited ==> row == was
            &&& after.turns == db.turns
            &&& waited && (forall|k: int|
                0 <= k < db.queued_prompts.len() && k != i && (
                #[trigger] db.queued_prompts[k]).status == "queued"@
                    && db.queued_prompts[k].queue_session_id == Some(queue)
                    ==> db.queued_prompts[k].seq > was.seq) ==> (db.current_segment(
                turn_id,
                revision,
            ) matches Some(segment) ==> segment.status == "running"@ && any(
                db.segments,
                segment_at(turn_id, revision, 0),
            ) ==> {
                let (said, thought) = db.segment_projection(
                    turn_id,
                    revision,
                    segment.segment_index,
                );
                &&& trimmed(said).len() > 0 ==> row.preceding_assistant_content
                    == Some(said)
                &&& row.preceding_assistant_reasoning == thought
            })
        }),
{
    let p = waiting_at(queue);
    let waiting = order_by(db.queued_prompts.filter(p), by_prompt_seq());
    let batch = waiting.map_values(id_and_content());
    let was = db.queued_prompts[i];
    lemma_listing(db.queued_prompts, p, by_prompt_seq());
    assert(db.queued_prompts.contains(was));
    if batch.len() > 0 {
        let begun = db.journal_begun(turn_id, revision, now);
        let segment = begun.current_segment(turn_id, revision)->0;
        let (content, reasoning) = if segment.status == "running"@ {
            begun.segment_projection(turn_id, revision, segment.segment_index)
        } else {
            (Seq::empty(), None)
        };
        lemma_stale_batch(
            db.queued_prompts,
            queue,
            turn_id,
            batch,
            unless_blank(content),
            reasoning,
            now,
            batch.len(),
        );
        if p(was) {
            assert(waiting.contains(was));
            let k = waiting.index_of(was);
            assert(batch[k].0 == was.prompt_id);
            assert(batch[k].1 == was.content);
            if k > 0 {
                assert(!by_prompt_seq()(waiting[k], waiting[0]));
                assert(waiting.contains(waiting[0]));
                let j = db.queued_prompts.index_of(waiting[0]);
                assert(db.queued_prompts[j] == waiting[0]);
                if j == i {
                    assert(waiting[0] == waiting[k]);
                    assert(batch[0].0 == was.prompt_id);
                }
            }
        } else {
            assert forall|k: int| 0 <= k < batch.len() implies (#[trigger] batch[k]).0
                != was.prompt_id by {
                assert(waiting.contains(waiting[k]));
                let j = db.queued_prompts.index_of(waiting[k]);
                assert(db.queued_prompts[j] == waiting[k]);
                if batch[k].0 == was.prompt_id {
                    lemma_unique_at(db.queued_prompts, prompt_id_of(), i, j);
                }
            }
        }
    } else {
        if p(was) {
            assert(waiting.contains(was));
        }
    }
}

/// A prompt that nobody will take up any more is dropped: it waits in no queue, or
/// in another queue than the current one that no running turn reads and whose
/// process is gone. All others stay, and the number of those dropped is told.
pub proof fn law_stale_prompts_are_dropped(
    db: DbModel,
    queue: Seq<char>,
    alive: Seq<u32>,
    i: int,
)
    requires
        db.well_formed(),
        0 <= i < db.queued_prompts.len(),
    ensures
        ({
            let (after, told) = db.discard_stale_queued_prompts(queue, alive);
            let row = db.queued_prompts[i];
            let read = row.queue_session_id matches Some(name) && {
                ||| name == queue
                ||| exists|t: int|
                    0 <= t < db.turns.len() && (#[trigger] db.turns[t]).status == "running"@
                        && db.turns[t].queue_session_id == Some(name)
                ||| (row.owner_pid matches Some(pid) && 0 <= pid <= u32::MAX && alive.contains(
                    pid as u32,
                ))
            };
            &&& after.queued_prompts.contains(row) == !(row.status == "queued"@ && !read)
            &&& after.queued_prompts.len() + told == db.queued_prompts.len()
            &&& after == (DbModel { queued_prompts: after.queued_prompts, ..db })
        }),
{
    let p = db.stale_prompt(queue, alive);
    let mine = db.queued_prompts.filter(p);
    let ids = mine.map_values(prompt_id_of());
    let row = db.queued_prompts[i];
    let q = waiting_among(ids);
    assert(db.queued_prompts.contains(row));
    lemma_filter_contains(db.queued_prompts, not(q), row);
    lemma_filter_contains(db.queued_prompts, p, row);
    if let Some(name) = row.queue_session_id {
        let runs = running_on(name);
        if any(db.turns, runs) {
            let t = choose|t: int| 0 <= t < db.turns.len() && runs(#[trigger] db.turns[t]);
            assert(db.turns[t].status == "running"@);
        }
        if exists|t: int|
            0 <= t < db.turns.len() && (#[trigger] db.turns[t]).status == "running"@
                && db.turns[t].queue_session_id == Some(name) {
            let t = choose|t: int|
                0 <= t < db.turns.len() && (#[trigger] db.turns[t]).status == "running"@
                    && db.turns[t].queue_session_id == Some(name);
            assert(runs(db.turns[t]));
        }
    }
    if p(row) {
        let k = mine.index_of(row);
        assert(ids[k] == row.prompt_id);
    }
    if ids.contains(row.prompt_id) {
        let k = ids.index_of(row.prompt_id);
        assert(mine.contains(mine[k]));
        lemma_filter_contains(db.queued_prompts, p, mine[k]);
        let j = db.queued_prompts.index_of(mine[k]);
        lemma_unique_at(db.queued_prompts, prompt_id_of(), i, j);
    }
    lemma_split_count(db.queued_prompts, q);
}

/// A predicate splits a list in two.
proof fn lemma_split_count<V>(s: Seq<V>, p: spec_fn(V) -> bool)
    ensures
        s.filter(p).len() + s.filter(not(p)).len() == s.len(),
    decreases s.len(),
{
    reveal(Seq::filter);
    if s.len() > 0 {
        lemma_split_count(s.drop_last(), p);
    }
}

proof fn lemma_folded_rows(
    rows: Seq<QueuedPromptRowModel>,
    turn_id: Seq<char>,
    ids: Seq<Seq<char>>,
    content: Option<Seq<char>>,
    reasoning: Option<Seq<char>>,
    now: Seq<char>,
    n: nat,
)
    requires
        unique(rows, prompt_id_of()),
        n <= ids.len(),
        forall|a: int, b: int| 0 <= a < b < ids.len() ==> ids[a] != ids[b],
        forall|i: int, k: int|
            0 <= i < rows.len() && 0 <= k < ids.len() && (#[trigger] rows[i]).prompt_id
                == #[trigger] ids[k] ==> rows[i].status == "queued"@,
    ensures
        ({
            let done = folded_into(rows, turn_id, ids, content, reasoning, now, n);
            &&& done.len() == rows.len()
            &&& forall|i: int|
                0 <= i < rows.len() ==> (#[trigger] done[i]).prompt_id == rows[i].prompt_id
            &&& forall|i: int, k: int|
                0 <= i < rows.len() && 0 <= k < n && (#[trigger] rows[i]).prompt_id
                    == #[trigger] ids[k] ==> {
                    &&& joins(done[i], rows[i], turn_id, rows[i].content, now)
                    &&& k == 0 ==> done[i].preceding_assistant_content == content
                        && done[i].preceding_assistant_reasoning == reasoning
                    &&& k > 0 ==> done[i].preceding_assistant_content is None
                        && done[i].preceding_assistant_reasoning is None
                }
            &&& forall|i: int|
                0 <= i < rows.len() && (forall|k: int|
                    0 <= k < n ==> #[trigger] ids[k] != rows[i].prompt_id) ==> #[trigger] done[i]
                    == rows[i]
        }),
    decreases n,
{
    if n > 0 {
        let m = (n - 1) as nat;
        lemma_folded_rows(rows, turn_id, ids, content, reasoning, now, m);
        let before = folded_into(rows, turn_id, ids, content, reasoning, now, m);
        let done = folded_into(rows, turn_id, ids, content, reasoning, now, n);
        let id = ids[n - 1];
        assert forall|i: int, k: int|
            0 <= i < rows.len() && 0 <= k < n && (#[trigger] rows[i]).prompt_id
                == #[trigger] ids[k] implies {
            &&& joins(done[i], rows[i], turn_id, rows[i].content, now)
            &&& k == 0 ==> done[i].preceding_assistant_content == content
                && done[i].preceding_assistant_reasoning == reasoning
            &&& k > 0 ==> done[i].preceding_assistant_content is None
                && done[i].preceding_assistant_reasoning is None
        } by {
            if k == m {
                assert forall|j: int| 0 <= j < m implies #[trigger] ids[j] != rows[i].prompt_id by {
                    assert(ids[j] != ids[n - 1]);
                }
                assert(before[i] == rows[i]);
                assert(rows[i].status == "queued"@);
                assert(waiting_with_id(id)(before[i]));
            } else {
                assert(ids[k] != ids[n - 1]);
                assert(before[i].prompt_id == rows[i].prompt_id);
                assert(done[i] == before[i]);
            }
        }
        assert forall|i: int|
            0 <= i < rows.len() && (forall|k: int|
                0 <= k < n ==> #[trigger] ids[k] != rows[i].prompt_id) implies #[trigger] done[i]
            == rows[i] by {
            assert(ids[n - 1] != rows[i].prompt_id);
            assert(before[i] == rows[i]);
        }
        assert forall|i: int| 0 <= i < rows.len() implies (#[trigger] done[i]).prompt_id
            == rows[i].prompt_id by {
            assert(before[i].prompt_id == rows[i].prompt_id);
        }
    }
}

/// When a queue is given up whose turn has settled, the prompts that wait in it are
/// not lost: each belongs to the turn from now on, in its own words, and the number
/// of them is told. Other prompts stay as they are.
pub proof fn law_given_up_queue_joins_the_settled_turn(
    db: DbModel,
    session_id: Seq<char>,
    queue: Seq<char>,
    now: Seq<char>,
    t: int,
    i: int,
)
    requires
        db.well_formed(),
        db.discard_queued_prompts(session_id, queue, now) is Ok,
        0 <= t < db.turns.len(),
        db.turns[t].session_id == session_id,
        db.turns[t].queue_session_id == Some(queue),
        db.turns[t].status != "running"@,
        forall|k: int|
            0 <= k < db.turns.len() && k != t && (#[trigger] db.turns[k]).session_id == session_id
                && db.turns[k].queue_session_id == Some(queue) ==> db.turns[k].seq
                < db.turns[t].seq,
        0 <= i < db.queued_prompts.len(),
    ensures
        ({
            let (after, told) = db.discard_queued_prompts(session_id, queue, now)->Ok_0;
            let was = db.queued_prompts[i];
            let row = after.queued_prompts[i];
            let waited = was.status == "queued"@ && was.session_id == session_id
                && was.queue_session_id == Some(queue);
            &&& after.queued_prompts.len() == db.queued_prompts.len()
            &&& waited ==> joins(row, was, db.turns[t].turn_id, was.content, now)
            &&& !waited ==> row == was
            &&& after.turns == db.turns
            &&& told == db.waiting(session_id, queue).len() as usize
        }),
{
    let turn = db.turns[t];
    let q = turn_with_queue(session_id, queue);
    lemma_last_of_session(db, q, t);
    let p = waiting_in(session_id, queue);
    let waiting = db.waiting(session_id, queue);
    let ids = waiting.map_values(prompt_id_of());
    lemma_listing(db.queued_prompts, p, by_prompt_seq());
    lemma_unique_filter(db.queued_prompts, p, prompt_id_of());
    lemma_unique_ordered(
        db.queued_prompts.filter(p),
        by_prompt_seq(),
        prompt_id_of(),
    );
    assert(unique(waiting, prompt_id_of()));
    let rows = db.queued_prompts;
    assert forall|a: int, b: int| 0 <= a < b < ids.len() implies ids[a] != ids[b] by {
        if ids[a] == ids[b] {
            lemma_unique_at(waiting, prompt_id_of(), a, b);
        }
    }
    assert forall|j: int, k: int|
        0 <= j < rows.len() && 0 <= k < ids.len() && (#[trigger] rows[j]).prompt_id
            == #[trigger] ids[k] implies p(rows[j]) by {
        assert(waiting.contains(waiting[k]));
        let m = rows.index_of(waiting[k]);
        assert(rows[m] == waiting[k]);
        lemma_unique_at(rows, prompt_id_of(), j, m);
    }
    let said = if turn.status == "interrupted"@ {
        uninterrupted(turn.assistant_content)
    } else {
        turn.assistant_content
    };
    lemma_folded_rows(
        rows,
        turn.turn_id,
        ids,
        unless_blank(said),
        turn.assistant_reasoning,
        now,
        ids.len(),
    );
    let was = rows[i];
    assert(rows.contains(was));
    if p(was) {
        assert(waiting.contains(was));
        let k = waiting.index_of(was);
        assert(ids[k] == was.prompt_id);
    } else {
        assert forall|k: int| 0 <= k < ids.len() implies #[trigger] ids[k] != was.prompt_id by {
            if ids[k] == was.prompt_id {
                assert(p(rows[i]));
            }
        }
    }
}

/// When a queue is given up that no turn has read, or whose turn runs, the prompts
/// that wait in it are dropped, and no others.
pub proof fn law_given_up_queue_is_dropped(
    db: DbModel,
    session_id: Seq<char>,
    queue: Seq<char>,
    now: Seq<char>,
    prompt: QueuedPromptRowModel,
)
    requires
        forall|t: int|
            0 <= t < db.turns.len() && (#[trigger] db.turns[t]).session_id == session_id
                && db.turns[t].queue_session_id == Some(queue) ==> db.turns[t].status
                == "running"@,
    ensures
        db.discard_queued_prompts(session_id, queue, now) is Ok,
        ({
            let (after, told) = db.discard_queued_prompts(session_id, queue, now)->Ok_0;
            &&& after.queued_prompts.contains(prompt) == (db.queued_prompts.contains(prompt) && !(
            prompt.status == "queued"@ && prompt.session_id == session_id
                && prompt.queue_session_id == Some(queue)))
            &&& after == (DbModel { queued_prompts: after.queued_prompts, ..db })
        }),
{
    let q = turn_with_queue(session_id, queue);
    let ordered = order_by(db.turns.filter(q), by_seq());
    lemma_listing(db.turns, q, by_seq());
    if ordered.len() > 0 {
        let turn = ordered.last();
        assert(ordered[ordered.len() - 1] == turn);
        assert(ordered.contains(turn));
        let t = db.turns.index_of(turn);
        assert(db.turns[t].status == "running"@);
    }
    lemma_filter_contains(db.queued_prompts, not(waiting_in(session_id, queue)), prompt);
}

} // verus!
