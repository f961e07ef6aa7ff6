//! Laws of what a redo does to the turn that it answers again.

use crate::facts::{
    lemma_filter_concat, lemma_filter_contains, lemma_filter_none, lemma_filter_push,
    lemma_order_contains,
};
use crate::json::json_strings;
use crate::laws::reading::lemma_last_of_session;
use crate::state::cascade::turn_id_of;
use crate::state::checkpoint::{
    artifact_id, artifact_of, checkpoint_of, image_id, image_of, item_of, question_of,
};
use crate::state::db::DbModel;
use crate::state::journal::{largest_event_id, PENDING_PLACEHOLDER};
use crate::state::keys::{item_key, lemma_unique_at, lemma_unique_change, unique};
use crate::state::queue::{by_prompt_seq, prompt_id_of};
use crate::state::redo::{
    artifact_beyond, consumed_by, image_beyond, item_from_triple, item_from_turn, question_from,
    reworded, settled_turn, with_turn_id, RedoRequest,
};
use crate::state::rows::{LoadedItemRowModel, QuestionRowModel};
use crate::state::sessions::{by_seq, plain_turn};
use crate::state::types::{ArtifactAssetDataModel, ImageAssetDataModel, RedoInputKind};
use crate::table::{any, count, first, lemma_order_by_len, not, order_by};
use vstd::prelude::*;

verus! {

/// The turn that a redo answers again is a row of the store.
proof fn lemma_redo_target(db: DbModel, session_id: Seq<char>)
    requires
        db.last_plain_turn(session_id) is Some,
    ensures
        ({
            let turn = db.last_plain_turn(session_id)->0;
            &&& db.turns.contains(turn)
            &&& turn.session_id == session_id
            &&& !turn.hidden
            &&& !turn.is_summary
        }),
{
    let turn = db.last_plain_turn(session_id)->0;
    let plain = db.turns.filter(plain_turn(session_id));
    let ordered = order_by(plain, by_seq());
    assert(ordered[ordered.len() - 1] == turn);
    assert(ordered.contains(turn));
    lemma_order_contains(plain, by_seq(), turn);
    lemma_filter_contains(db.turns, plain_turn(session_id), turn);
}

/// The last prompt that a turn took up is a row of the store.
proof fn lemma_last_taken_up(db: DbModel, turn_id: Seq<char>)
    requires
        db.consumed(turn_id).len() > 0,
    ensures
        ({
            let prompt = db.consumed(turn_id).last();
            &&& db.queued_prompts.contains(prompt)
            &&& prompt.turn_id == Some(turn_id)
            &&& prompt.status == "consumed"@
        }),
{
    let mine = db.queued_prompts.filter(consumed_by(turn_id));
    let ordered = db.consumed(turn_id);
    let prompt = ordered.last();
    assert(ordered[ordered.len() - 1] == prompt);
    assert(ordered.contains(prompt));
    lemma_order_contains(mine, by_prompt_seq(), prompt);
    lemma_filter_contains(db.queued_prompts, consumed_by(turn_id), prompt);
}

/// A redo asks what the user has now written. Of a first prompt, the turn holds
/// the new wording, for the model and for its users; of a follow-up, the prompt
/// that was taken up holds it. No other turn or prompt is touched.
pub proof fn law_redo_asks_the_new_wording(db: DbModel, request: RedoRequest, now: Seq<char>)
    requires
        db.well_formed(),
        db.begin_redo(request, now) is Ok,
    ensures
        ({
            let after = db.begin_redo(request, now)->Ok_0.0;
            let initial = request.input_kind == RedoInputKind::Initial;
            &&& after.turns.len() == db.turns.len()
            &&& after.queued_prompts.len() == db.queued_prompts.len()
            &&& exists|i: int|
                0 <= i < db.turns.len() && (#[trigger] after.turns[i]).turn_id == request.turn_id
            &&& forall|i: int|
                0 <= i < db.turns.len() ==> {
                    let row = #[trigger] after.turns[i];
                    &&& db.turns[i].turn_id != request.turn_id ==> row == db.turns[i]
                    &&& db.turns[i].turn_id == request.turn_id ==> {
                        &&& row.turn_id == request.turn_id
                        &&& row.user_content == if initial {
                            request.content
                        } else {
                            db.turns[i].user_content
                        }
                        &&& row.display_content == if initial {
                            request.display_content
                        } else {
                            db.turns[i].display_content
                        }
                    }
                }
            &&& initial ==> after.queued_prompts == db.queued_prompts
            &&& !initial ==> exists|i: int|
                0 <= i < db.queued_prompts.len() && (#[trigger] after.queued_prompts[i]).prompt_id
                    == request.input_id
            &&& forall|i: int|
                0 <= i < db.queued_prompts.len() ==> {
                    let prompt = #[trigger] after.queued_prompts[i];
                    let asked = !initial && db.queued_prompts[i].prompt_id == request.input_id;
                    &&& prompt.prompt_id == db.queued_prompts[i].prompt_id
                    &&& !asked ==> prompt == db.queued_prompts[i]
                    &&& asked ==> {
                        &&& prompt.content == request.content
                        &&& prompt.context_content == Some(request.content)
                        &&& prompt.display_content == request.display_content
                        &&& prompt.turn_id == Some(request.turn_id)
                        &&& prompt.status == "consumed"@
                        &&& prompt.seq == db.queued_prompts[i].seq
                        &&& prompt.attachments == db.queued_prompts[i].attachments
                    }
                }
        }),
{
    let after = db.begin_redo(request, now)->Ok_0.0;
    let turn = db.last_plain_turn(request.session_id)->0;
    lemma_redo_target(db, request.session_id);
    let at = db.turns.index_of(turn);
    assert(after.turns[at].turn_id == request.turn_id);
    assert forall|i: int| 0 <= i < db.turns.len() && db.turns[i].turn_id
        == request.turn_id implies i == at by {
        lemma_unique_at(db.turns, turn_id_of(), i, at);
    }
    if request.input_kind == RedoInputKind::Followup {
        lemma_last_taken_up(db, request.turn_id);
        let prompt = db.consumed(request.turn_id).last();
        let k = db.queued_prompts.index_of(prompt);
        assert(after.queued_prompts[k].prompt_id == request.input_id);
        assert forall|i: int| 0 <= i < db.queued_prompts.len() && db.queued_prompts[i].prompt_id
            == request.input_id implies i == k by {
            lemma_unique_at(db.queued_prompts, prompt_id_of(), i, k);
        }
    }
}

/// A redo starts the answer over: the turn runs again under the next revision,
/// for the process and the queue that asked for it, nothing of the old answer is
/// left in it, and its place in the conversation stays. Its journal begins anew.
pub proof fn law_redo_starts_the_answer_over(
    db: DbModel,
    request: RedoRequest,
    now: Seq<char>,
    i: int,
)
    requires
        db.well_formed(),
        db.begin_redo(request, now) is Ok,
        0 <= i < db.turns.len(),
        db.turns[i].turn_id == request.turn_id,
    ensures
        ({
            let (after, start) = db.begin_redo(request, now)->Ok_0;
            let was = db.turns[i];
            let redone = after.turns[i];
            &&& redone.status == "running"@
            &&& redone.revision == was.revision + 1
            &&& start.revision == was.revision + 1
            &&& was.revision == request.expected_revision
            &&& redone.assistant_content == PENDING_PLACEHOLDER@
            &&& redone.assistant_reasoning is None
            &&& redone.assistant_provider_id is None
            &&& redone.assistant_model is None
            &&& redone.assistant_timestamp is None
            &&& redone.token_total == 0
            &&& !redone.token_usage_estimated
            &&& redone.owner_pid == Some(request.owner_pid as i64)
            &&& redone.queue_session_id == Some(request.queue)
            &&& redone.session_id == request.session_id
            &&& redone.seq == was.seq
            &&& redone.user_timestamp == was.user_timestamp
            &&& redone.hidden == was.hidden
            &&& redone.is_summary == was.is_summary
            &&& request.input_kind == RedoInputKind::Initial ==> redone.tool_reports == json_strings(
                Seq::empty(),
            ) && start.checkpoint is None
            &&& request.input_kind == RedoInputKind::Followup ==> {
                &&& start.checkpoint matches Some(checkpoint)
                &&& redone.tool_reports == json_strings(checkpoint.prefix_tool_reports)
                &&& first(db.checkpoints, checkpoint_of(request.turn_id)) matches Some(kept)
                    && kept.payload == Some(checkpoint)
            }
            &&& after.segments.len() == db.segments.len() + 1
            &&& after.segments.drop_last() == db.segments
            &&& after.segments.last().turn_id == request.turn_id
            &&& after.segments.last().revision == redone.revision
            &&& after.segments.last().segment_index == 0
            &&& after.segments.last().status == "running"@
            &&& after.segments.last().started_at == now
            &&& after.events.len() == db.events.len() + 1
            &&& after.events.drop_last() == db.events
            &&& after.events.last().turn_id == request.turn_id
            &&& after.events.last().event.revision == redone.revision
        }),
{
    let after = db.begin_redo(request, now)->Ok_0.0;
    let turn = db.last_plain_turn(request.session_id)->0;
    lemma_redo_target(db, request.session_id);
    let at = db.turns.index_of(turn);
    lemma_unique_at(db.turns, turn_id_of(), i, at);
    assert(after.segments.drop_last() =~= db.segments);
    assert(after.events.drop_last() =~= db.events);
}

/// What the old answer to a first prompt brought about leaves with it: its
/// questions, pictures and files, and the tools that the turn had loaded. What
/// belongs to other turns stays.
pub proof fn law_redo_drops_what_the_answer_made(
    db: DbModel,
    request: RedoRequest,
    now: Seq<char>,
    question: QuestionRowModel,
    image: ImageAssetDataModel,
    artifact: ArtifactAssetDataModel,
    item: LoadedItemRowModel,
)
    requires
        db.begin_redo(request, now) is Ok,
        request.input_kind == RedoInputKind::Initial,
    ensures
        ({
            let after = db.begin_redo(request, now)->Ok_0.0;
            &&& after.questions.contains(question) == (db.questions.contains(question)
                && question.turn_id != request.turn_id)
            &&& after.images.contains(image) == (db.images.contains(image) && image.asset.turn_id
                != request.turn_id)
            &&& after.artifacts.contains(artifact) == (db.artifacts.contains(artifact)
                && artifact.asset.turn_id != request.turn_id)
            &&& after.loaded_items.contains(item) == (db.loaded_items.contains(item) && !(
            item.session_id == request.session_id && item.source_turn_id == Some(request.turn_id)))
        }),
{
    lemma_filter_contains(db.questions, not(question_of(request.turn_id)), question);
    lemma_filter_contains(db.images, not(image_of(request.turn_id)), image);
    lemma_filter_contains(db.artifacts, not(artifact_of(request.turn_id)), artifact);
    lemma_filter_contains(
        db.loaded_items,
        not(item_from_turn(request.session_id, request.turn_id)),
        item,
    );
}

/// A redo of a follow-up goes back to where the follow-up was taken up: the
/// questions that were answered before stay and later ones leave, of the turn's
/// pictures and files those stay that were there then, and the session has the
/// tools loaded that it had then.
pub proof fn law_redo_goes_back_to_the_followup(
    db: DbModel,
    request: RedoRequest,
    now: Seq<char>,
    question: QuestionRowModel,
    image: ImageAssetDataModel,
    artifact: ArtifactAssetDataModel,
    item: LoadedItemRowModel,
)
    requires
        db.begin_redo(request, now) is Ok,
        request.input_kind == RedoInputKind::Followup,
        image.asset.turn_id == request.turn_id,
        artifact.asset.turn_id == request.turn_id,
    ensures
        ({
            let (after, start) = db.begin_redo(request, now)->Ok_0;
            let then = start.checkpoint->0;
            &&& after.questions.contains(question) == (db.questions.contains(question) && !(
            question.turn_id == request.turn_id && question.exchange_index
                >= then.prefix_question_count as i64))
            &&& after.images.contains(image) == (db.images.contains(image)
                && then.prefix_image_asset_ids.contains(image.asset.asset_id))
            &&& after.artifacts.contains(artifact) == (db.artifacts.contains(artifact)
                && then.prefix_artifact_asset_ids.contains(artifact.asset.asset_id))
            &&& item.session_id != request.session_id ==> after.loaded_items.contains(item)
                == db.loaded_items.contains(item)
            &&& item.session_id == request.session_id ==> after.loaded_items.contains(item) == (
            then.loaded_items.contains((item.kind, item.name, item.source_turn_id))
                && item.created_at == now && item.updated_at == now)
        }),
{
    let (after, start) = db.begin_redo(request, now)->Ok_0;
    let then = start.checkpoint->0;
    let turn_id = request.turn_id;
    lemma_filter_contains(
        db.questions,
        not(question_from(turn_id, then.prefix_question_count as i64)),
        question,
    );
    let images = db.images.filter(image_of(turn_id));
    let image_ids = images.map_values(image_id());
    lemma_filter_contains(
        db.images,
        not(image_beyond(image_ids, then.prefix_image_asset_ids)),
        image,
    );
    lemma_filter_contains(db.images, image_of(turn_id), image);
    if db.images.contains(image) {
        assert(image_ids[images.index_of(image)] == image.asset.asset_id);
    }
    let artifacts = db.artifacts.filter(artifact_of(turn_id));
    let artifact_ids = artifacts.map_values(artifact_id());
    lemma_filter_contains(
        db.artifacts,
        not(artifact_beyond(artifact_ids, then.prefix_artifact_asset_ids)),
        artifact,
    );
    lemma_filter_contains(db.artifacts, artifact_of(turn_id), artifact);
    if db.artifacts.contains(artifact) {
        assert(artifact_ids[artifacts.index_of(artifact)] == artifact.asset.asset_id);
    }
    let others = db.loaded_items.filter(not(item_of(request.session_id)));
    let mine = then.loaded_items.map_values(item_from_triple(request.session_id, now));
    lemma_filter_contains(db.loaded_items, not(item_of(request.session_id)), item);
    let all = after.loaded_items;
    assert(all == others + mine);
    if others.contains(item) {
        assert(all[others.index_of(item)] == item);
    }
    let triple = (item.kind, item.name, item.source_turn_id);
    if then.loaded_items.contains(triple) && item.session_id == request.session_id
        && item.created_at == now && item.updated_at == now {
        let k = then.loaded_items.index_of(triple);
        assert(mine[k] == item);
        assert(all[others.len() + k] == item);
    }
    if all.contains(item) {
        let k = all.index_of(item);
        if k < others.len() {
            assert(others[k] == item);
            assert(others.contains(item));
        } else {
            assert(mine[k - others.len()] == item);
            assert(then.loaded_items[k - others.len()] == triple);
        }
    }
}

/// The only row with an id is counted once.
proof fn lemma_counted_once(db: DbModel, request: RedoRequest, i: int)
    requires
        unique(db.turns, turn_id_of()),
        0 <= i < db.turns.len(),
        settled_turn(request.turn_id, request.session_id, request.expected_revision)(db.turns[i]),
    ensures
        count(
            db.turns,
            settled_turn(request.turn_id, request.session_id, request.expected_revision),
        ) == 1,
{
    let p = settled_turn(request.turn_id, request.session_id, request.expected_revision);
    let head = db.turns.take(i);
    let tail = db.turns.skip(i + 1);
    if any(head, p) {
        let k = choose|k: int| 0 <= k < head.len() && p(#[trigger] head[k]);
        lemma_unique_at(db.turns, turn_id_of(), k, i);
    }
    if any(tail, p) {
        let k = choose|k: int| 0 <= k < tail.len() && p(#[trigger] tail[k]);
        assert(db.turns[k + i + 1] == tail[k]);
        lemma_unique_at(db.turns, turn_id_of(), k + i + 1, i);
    }
    lemma_filter_none(head, p);
    lemma_filter_none(tail, p);
    lemma_filter_push(head, db.turns[i], p);
    lemma_filter_concat(head.push(db.turns[i]), tail, p);
    assert(head.push(db.turns[i]) + tail =~= db.turns);
}

/// What is offered for a redo can be redone, with any wording: where no other
/// turn of the session runs and nothing is left of an earlier attempt, the redo
/// begins.
pub proof fn law_redo_offer_can_be_taken(db: DbModel, request: RedoRequest, now: Seq<char>)
    requires
        db.well_formed(),
        db.redo_candidate(request.session_id) matches Some(offer) && {
            &&& request.turn_id == offer.turn_id
            &&& request.input_id == offer.input_id
            &&& request.input_kind == offer.input_kind
            &&& request.expected_revision == offer.revision
        },
        request.expected_revision < i64::MAX,
        forall|i: int|
            0 <= i < db.turns.len() && (#[trigger] db.turns[i]).session_id == request.session_id
                ==> db.turns[i].status != "running"@,
        forall|i: int|
            0 <= i < db.backups.len() ==> (#[trigger] db.backups[i]).turn_id != request.turn_id,
        forall|i: int|
            0 <= i < db.segments.len() && (#[trigger] db.segments[i]).turn_id == request.turn_id
                ==> db.segments[i].revision != request.expected_revision + 1,
        largest_event_id(db.events) < i64::MAX,
        request.input_kind == RedoInputKind::Followup ==> (first(
            db.checkpoints,
            checkpoint_of(request.turn_id),
        ) matches Some(kept) ==> (kept.payload matches Some(then) ==> unique(
            then.loaded_items.map_values(item_from_triple(request.session_id, now)),
            item_key(),
        ))),
    ensures
        db.begin_redo(request, now) is Ok,
{
    let turn = db.last_plain_turn(request.session_id)->0;
    lemma_redo_target(db, request.session_id);
    let at = db.turns.index_of(turn);
    assert(db.turns[at] == turn);
    let backed = db.backed_up(turn, request, now);
    if request.input_kind == RedoInputKind::Initial {
        let mine = db.queued_prompts.filter(consumed_by(request.turn_id));
        lemma_order_by_len(mine, by_prompt_seq());
        if any(db.queued_prompts, consumed_by(request.turn_id)) {
            let p = consumed_by(request.turn_id);
            let k = choose|k: int|
                0 <= k < db.queued_prompts.len() && p(#[trigger] db.queued_prompts[k]);
            assert(db.queued_prompts.contains(db.queued_prompts[k]));
            lemma_filter_contains(db.queued_prompts, p, db.queued_prompts[k]);
        }
    }
    let (db2, checkpoint) = backed.rewound(request, now)->Ok_0;
    assert(backed.rewound(request, now) is Ok);
    let p = settled_turn(request.turn_id, request.session_id, request.expected_revision);
    assert(p(db2.turns[at]));
    assert(unique(db2.turns, turn_id_of())) by {
        lemma_unique_change(
            db.turns,
            with_turn_id(request.turn_id),
            reworded(request.content, request.display_content),
            turn_id_of(),
        );
    }
    lemma_counted_once(db2, request, at);
}

/// The prompt of the last turn of a session is offered for a redo, once the turn
/// has settled and where it took up no other prompt.
pub proof fn law_last_prompt_is_offered(db: DbModel, session_id: Seq<char>, i: int)
    requires
        0 <= i < db.turns.len(),
        db.turns[i].session_id == session_id,
        !db.turns[i].hidden,
        !db.turns[i].is_summary,
        db.turns[i].status != "running"@,
        forall|k: int|
            0 <= k < db.turns.len() && k != i && (#[trigger] db.turns[k]).session_id == session_id
                && !db.turns[k].hidden && !db.turns[k].is_summary ==> db.turns[k].seq
                < db.turns[i].seq,
        forall|k: int|
            0 <= k < db.queued_prompts.len() && (#[trigger] db.queued_prompts[k]).turn_id == Some(
                db.turns[i].turn_id,
            ) ==> db.queued_prompts[k].status != "consumed"@,
    ensures
        db.redo_candidate(session_id) matches Some(offer) && {
            &&& offer.turn_id == db.turns[i].turn_id
            &&& offer.revision == db.turns[i].revision
            &&& offer.input_id == db.turns[i].turn_id
            &&& offer.input_kind == RedoInputKind::Initial
            &&& offer.display_content == db.turns[i].display_content
            &&& offer.batch_prompt_ids.len() == 0
        },
{
    let row = db.turns[i];
    lemma_last_of_session(db, plain_turn(session_id), i);
    let p = consumed_by(row.turn_id);
    assert(!any(db.queued_prompts, p));
    lemma_filter_none(db.queued_prompts, p);
    lemma_order_by_len(db.queued_prompts.filter(p), by_prompt_seq());
}

/// While a turn runs, nothing of its session is offered for a redo.
pub proof fn law_running_turn_is_not_redone(db: DbModel, session_id: Seq<char>, i: int)
    requires
        0 <= i < db.turns.len(),
        db.turns[i].session_id == session_id,
        !db.turns[i].hidden,
        !db.turns[i].is_summary,
        db.turns[i].status == "running"@,
        forall|k: int|
            0 <= k < db.turns.len() && k != i && (#[trigger] db.turns[k]).session_id == session_id
                && !db.turns[k].hidden && !db.turns[k].is_summary ==> db.turns[k].seq
                < db.turns[i].seq,
    ensures
        db.redo_candidate(session_id) is None,
{
    lemma_last_of_session(db, plain_turn(session_id), i);
}

} // verus!
