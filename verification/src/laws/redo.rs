//! Laws of answering a prompt again.

use crate::facts::{
    changed, lemma_filter_change, lemma_filter_concat, lemma_filter_contains, lemma_filter_none,
    lemma_filter_push, lemma_filter_twice, lemma_filter_within, lemma_first, lemma_first_push,
    lemma_map_change, lemma_order_change, lemma_order_contains,
};
use crate::state::checkpoint::{
    artifact_id, artifact_of, checkpoint_of, image_id, image_of, item_of, question_of,
};
use crate::state::db::DbModel;
use crate::state::journal::segment_of;
use crate::state::keys::{item_key, lemma_unique_filter, lemma_unique_ordered, unique};
use crate::state::queue::{by_prompt_seq, prompt_id_of};
use crate::state::redo::{
    artifact_beyond, backup_at, backup_of, claimed, consumed_by, consumed_prompt, event_of,
    image_beyond, item_backup, item_from_triple, item_from_turn, item_restored, less_one,
    prompt_among, question_from, restored, reworded, reworded_prompt, running_revision,
    settled_turn, with_prompt_id, with_turn_id, RedoRequest,
};
use crate::state::rows::{BackupRowModel, LoadedItemRowModel, QueuedPromptRowModel, TurnRowModel};
use crate::state::sessions::{by_seq, plain_turn};
use crate::state::types::{RedoInputKind, TurnRedoBackupModel};
use crate::table::{any, change_where, first, last_of, not, order_by};
use crate::web::scopes::settled;
use vstd::prelude::*;

verus! {

/// Whether ids are told apart, as far as a redo of a turn depends on it.
#[verifier::opaque]
pub open spec fn ids_told_apart(db: DbModel, turn_id: Seq<char>) -> bool {
    let images = db.images.filter(image_of(turn_id)).map_values(image_id());
    let artifacts = db.artifacts.filter(artifact_of(turn_id)).map_values(artifact_id());
    &&& forall|i: int, j: int|
        0 <= i < db.turns.len() && 0 <= j < db.turns.len() && (#[trigger] db.turns[i]).turn_id == (
        #[trigger] db.turns[j]).turn_id ==> i == j
    &&& forall|i: int, j: int|
        0 <= i < db.queued_prompts.len() && 0 <= j < db.queued_prompts.len() && (
        #[trigger] db.queued_prompts[i]).prompt_id == (#[trigger] db.queued_prompts[j]).prompt_id
            ==> i == j
    &&& forall|i: int|
        0 <= i < db.images.len() && images.contains((#[trigger] db.images[i]).asset.asset_id)
            ==> db.images[i].asset.turn_id == turn_id
    &&& forall|i: int|
        0 <= i < db.artifacts.len() && artifacts.contains(
            (#[trigger] db.artifacts[i]).asset.asset_id,
        ) ==> db.artifacts[i].asset.turn_id == turn_id
}

/// Whether nothing is left of an earlier redo of a turn.
#[verifier::opaque]
pub open spec fn no_redo_pending(db: DbModel, turn_id: Seq<char>, revision: i64) -> bool {
    &&& !any(db.segments, segment_of(turn_id, revision))
    &&& !any(db.events, event_of(turn_id, revision))
    &&& !any(db.question_backups, question_of(turn_id))
    &&& !any(db.image_backups, image_of(turn_id))
    &&& !any(db.artifact_backups, artifact_of(turn_id))
}

/// Whether ids are told apart and nothing is left of an earlier redo.
pub open spec fn ready_for_redo(db: DbModel, request: RedoRequest) -> bool {
    &&& ids_told_apart(db, request.turn_id)
    &&& unique(db.loaded_items, item_key())
    &&& no_redo_pending(db, request.turn_id, (request.expected_revision + 1) as i64)
}

/// The rows of a table with those that satisfy `p` at its end.
pub open spec fn at_end<V>(s: Seq<V>, p: spec_fn(V) -> bool) -> Seq<V> {
    s.filter(not(p)) + s.filter(p)
}

/// Whether `back` holds what `db` held before a redo of a turn, save that its
/// session counts as used, and that rows of the turn may have moved to the end
/// of their tables.
pub open spec fn undone(db: DbModel, back: DbModel, request: RedoRequest, now: Seq<char>) -> bool {
    let turn_id = request.turn_id;
    let others = db.checkpoints.filter(not(checkpoint_of(turn_id)));
    &&& back.turns == db.turns
    &&& back.queued_prompts == db.queued_prompts
    &&& back.segments == db.segments
    &&& back.events == db.events
    &&& back.backups == db.backups
    &&& back.question_backups == db.question_backups
    &&& back.image_backups == db.image_backups
    &&& back.artifact_backups == db.artifact_backups
    &&& back.questions == at_end(db.questions, question_of(turn_id))
    &&& back.images == at_end(db.images, image_of(turn_id))
    &&& back.artifacts == at_end(db.artifacts, artifact_of(turn_id))
    &&& back.checkpoints == match first(db.checkpoints, checkpoint_of(turn_id)) {
        Some(row) => others.push(row),
        None => others,
    }
    &&& back.loaded_items == db.loaded_items.filter(not(item_of(request.session_id))) + db.items(
        request.session_id,
    )
    &&& back.sessions == db.touch_session(request.session_id, now).sessions
    &&& back.attachments == db.attachments
    &&& back.bindings == db.bindings
    &&& back.grants == db.grants
    &&& back.audit == db.audit
    &&& back.app_state == db.app_state
    &&& back.plugin_kv == db.plugin_kv
}

/// The row of a redone turn, before and after.
proof fn lemma_turns_restored(
    db: DbModel,
    request: RedoRequest,
    turn: TurnRowModel,
    reports: Seq<char>,
    reword: bool,
)
    requires
        ready_for_redo(db, request),
        db.turns.contains(turn),
        turn.turn_id == request.turn_id,
        turn.session_id == request.session_id,
        turn.revision == request.expected_revision,
        turn.status != "running"@,
        request.expected_revision < i64::MAX,
    ensures
        ({
            let revision = (request.expected_revision + 1) as i64;
            let before = if reword {
                change_where(
                    db.turns,
                    with_turn_id(request.turn_id),
                    reworded(request.content, request.display_content),
                )
            } else {
                db.turns
            };
            let after = change_where(
                before,
                settled_turn(request.turn_id, request.session_id, request.expected_revision),
                claimed(reports, request.owner_pid, request.queue),
            );
            let p = running_revision(request.turn_id, revision);
            let b = db.redo_backup(turn, request);
            &&& first(after, p) matches Some(row) && row.session_id == request.session_id
            &&& change_where(after, p, restored(b, less_one(revision))) == db.turns
        }),
{
    let revision = (request.expected_revision + 1) as i64;
    let f = reworded(request.content, request.display_content);
    let before = if reword {
        change_where(db.turns, with_turn_id(request.turn_id), f)
    } else {
        db.turns
    };
    let settled = settled_turn(request.turn_id, request.session_id, request.expected_revision);
    let g = claimed(reports, request.owner_pid, request.queue);
    let after = change_where(before, settled, g);
    let p = running_revision(request.turn_id, revision);
    let b = db.redo_backup(turn, request);
    reveal(ids_told_apart);
    let k = db.turns.index_of(turn);
    assert(db.turns[k] == turn);
    assert forall|i: int| 0 <= i < db.turns.len() && i != k implies {
        &&& #[trigger] after[i] == db.turns[i]
        &&& !p(after[i])
    } by {
        assert(db.turns[i].turn_id != db.turns[k].turn_id);
    }
    assert(settled(before[k]));
    assert(p(after[k]));
    lemma_first(after, p);
    let row = first(after, p)->0;
    let at = after.index_of(row);
    assert(at == k);
    let back = change_where(after, p, restored(b, less_one(revision)));
    assert(back[k] == db.turns[k]);
    assert(back =~= db.turns);
}

/// No prompt was taken up by a turn that its backup does not know of.
proof fn lemma_no_late_prompts(
    db: DbModel,
    prompts: Seq<QueuedPromptRowModel>,
    turn_id: Seq<char>,
    b: TurnRedoBackupModel,
)
    requires
        b.consumed_prompt_ids == db.consumed(turn_id).map_values(prompt_id_of()),
        prompts.filter(consumed_by(turn_id)).map_values(prompt_id_of()) == db.queued_prompts.filter(
            consumed_by(turn_id),
        ).map_values(prompt_id_of()),
    ensures
        ({
            let late = prompts.filter(consumed_by(turn_id)).map_values(prompt_id_of()).filter(
                |id: Seq<char>| !b.consumed_prompt_ids.contains(id),
            );
            prompts.filter(not(prompt_among(late))) == prompts
        }),
{
    let mine = db.queued_prompts.filter(consumed_by(turn_id));
    let ids = mine.map_values(prompt_id_of());
    let unknown = |id: Seq<char>| !b.consumed_prompt_ids.contains(id);
    if any(ids, unknown) {
        let i = choose|i: int| 0 <= i < ids.len() && unknown(#[trigger] ids[i]);
        assert(mine.contains(mine[i]));
        lemma_order_contains(mine, by_prompt_seq(), mine[i]);
        let ordered = order_by(mine, by_prompt_seq());
        let j = ordered.index_of(mine[i]);
        assert(b.consumed_prompt_ids[j] == ids[i]);
    }
    lemma_filter_none(ids, unknown);
    let none = Seq::<Seq<char>>::empty();
    assert(!any(prompts, prompt_among(none)));
    lemma_filter_none(prompts, prompt_among(none));
}

/// Rewording the last follow-up of a turn and wording it back.
proof fn lemma_followup_restored(
    db: DbModel,
    request: RedoRequest,
    turn: TurnRowModel,
    kept: DbModel,
)
    requires
        ready_for_redo(db, request),
        request.input_kind == RedoInputKind::Followup,
        last_of(db.consumed(request.turn_id)) matches Some(prompt) && prompt.prompt_id
            == request.input_id,
        kept.queued_prompts == change_where(
            db.queued_prompts,
            consumed_prompt(request.input_id, request.turn_id),
            reworded_prompt(request.content, request.display_content, Some(request.content)),
        ),
    ensures
        kept.followup_restored(request.turn_id, db.redo_backup(turn, request)) == (DbModel {
            queued_prompts: db.queued_prompts,
            ..kept
        }),
{
    reveal(ids_told_apart);
    let turn_id = request.turn_id;
    let p = consumed_prompt(request.input_id, turn_id);
    let f = reworded_prompt(request.content, request.display_content, Some(request.content));
    let b = db.redo_backup(turn, request);
    let mine = db.queued_prompts.filter(consumed_by(turn_id));
    let ordered = db.consumed(turn_id);
    let last = ordered.last();
    lemma_filter_change(db.queued_prompts, p, f, consumed_by(turn_id));
    lemma_order_change(mine, by_prompt_seq(), p, f);
    assert(kept.consumed(turn_id) == change_where(ordered, p, f));
    assert(kept.consumed(turn_id).last() == changed(p, f, last));
    assert(ordered[ordered.len() - 1] == last);
    assert(ordered.contains(last));
    lemma_order_contains(mine, by_prompt_seq(), last);
    lemma_filter_contains(db.queued_prompts, consumed_by(turn_id), last);
    let k = db.queued_prompts.index_of(last);
    assert(p(db.queued_prompts[k]));
    lemma_first(db.queued_prompts, p);
    let kept_first = first(db.queued_prompts, p)->0;
    let at = db.queued_prompts.index_of(kept_first);
    assert(db.queued_prompts[at].prompt_id == db.queued_prompts[k].prompt_id);
    assert(kept_first == last);
    let back = change_where(
        kept.queued_prompts,
        with_prompt_id(request.input_id),
        reworded_prompt(last.content, last.display_content, last.context_content),
    );
    assert forall|i: int| 0 <= i < db.queued_prompts.len() implies #[trigger] back[i]
        == db.queued_prompts[i] by {
        if db.queued_prompts[i].prompt_id == request.input_id {
            assert(db.queued_prompts[i].prompt_id == db.queued_prompts[k].prompt_id);
        }
    }
    assert(back =~= db.queued_prompts);
}

/// The items of a session, kept in a backup and brought back.
proof fn lemma_items_restored(db: DbModel, session_id: Seq<char>)
    ensures
        unique(db.loaded_items, item_key()) ==> unique(db.items(session_id), item_key()),
        db.items(session_id).map_values(item_backup()).map_values(item_restored(session_id))
            == db.items(session_id),
{
    let mine = db.loaded_items.filter(item_of(session_id));
    let items = db.items(session_id);
    let back = items.map_values(item_backup()).map_values(item_restored(session_id));
    assert forall|i: int| 0 <= i < items.len() implies #[trigger] back[i] == items[i] by {
        assert(items.contains(items[i]));
        lemma_order_contains(mine, crate::state::checkpoint::by_kind_and_name(), items[i]);
        lemma_filter_contains(db.loaded_items, item_of(session_id), items[i]);
    }
    assert(back =~= items);
    if unique(db.loaded_items, item_key()) {
        lemma_unique_filter(db.loaded_items, item_of(session_id), item_key());
        lemma_unique_ordered(mine, crate::state::checkpoint::by_kind_and_name(), item_key());
    }
}

/// What the store holds of a turn's questions, pictures and files once a redo
/// has begun.
proof fn lemma_children_restored(
    db: DbModel,
    after: DbModel,
    request: RedoRequest,
    turn: TurnRowModel,
    now: Seq<char>,
)
    requires
        ready_for_redo(db, request),
        db.backed_up(turn, request, now).rewound(request, now) matches Ok(rewound)
            && rewound.0.questions == after.questions && rewound.0.images == after.images
            && rewound.0.artifacts == after.artifacts && rewound.0.loaded_items
            == after.loaded_items,
    ensures
        after.questions.filter(not(question_of(request.turn_id))) == db.questions.filter(
            not(question_of(request.turn_id)),
        ),
        after.images.filter(not(image_of(request.turn_id))) == db.images.filter(
            not(image_of(request.turn_id)),
        ),
        after.artifacts.filter(not(artifact_of(request.turn_id))) == db.artifacts.filter(
            not(artifact_of(request.turn_id)),
        ),
        after.loaded_items.filter(not(item_of(request.session_id))) == db.loaded_items.filter(
            not(item_of(request.session_id)),
        ),
{
    reveal(ids_told_apart);
    let turn_id = request.turn_id;
    let backed = db.backed_up(turn, request, now);
    match request.input_kind {
        RedoInputKind::Initial => {
            lemma_filter_twice(db.questions, not(question_of(turn_id)));
            lemma_filter_twice(db.images, not(image_of(turn_id)));
            lemma_filter_twice(db.artifacts, not(artifact_of(turn_id)));
            lemma_filter_within(
                db.loaded_items,
                not(item_from_turn(request.session_id, turn_id)),
                not(item_of(request.session_id)),
            );
        },
        RedoInputKind::Followup => {
            let checkpoint = backed.redo_checkpoint(turn_id)->0.payload->0;
            let images = db.images.filter(image_of(turn_id)).map_values(image_id());
            let artifacts = db.artifacts.filter(artifact_of(turn_id)).map_values(artifact_id());
            lemma_filter_within(
                db.questions,
                not(question_from(turn_id, checkpoint.prefix_question_count as i64)),
                not(question_of(turn_id)),
            );
            lemma_filter_within(
                db.images,
                not(image_beyond(images, checkpoint.prefix_image_asset_ids)),
                not(image_of(turn_id)),
            );
            lemma_filter_within(
                db.artifacts,
                not(artifact_beyond(artifacts, checkpoint.prefix_artifact_asset_ids)),
                not(artifact_of(turn_id)),
            );
            let others = db.loaded_items.filter(not(item_of(request.session_id)));
            let mine = checkpoint.loaded_items.map_values(
                item_from_triple(request.session_id, now),
            );
            lemma_filter_concat(others, mine, not(item_of(request.session_id)));
            lemma_filter_twice(db.loaded_items, not(item_of(request.session_id)));
            assert(!any(mine, not(item_of(request.session_id))));
            lemma_filter_none(mine, not(item_of(request.session_id)));
            assert(others + Seq::<LoadedItemRowModel>::empty() =~= others);
        },
    }
}

/// What the store holds once a redo of `turn` has begun.
#[verifier::opaque]
spec fn begun(
    db: DbModel,
    after: DbModel,
    request: RedoRequest,
    turn: TurnRowModel,
    reports: Seq<char>,
    now: Seq<char>,
) -> bool {
    let turn_id = request.turn_id;
    let revision = (request.expected_revision + 1) as i64;
    let initial = request.input_kind == RedoInputKind::Initial;
    let before = if initial {
        change_where(
            db.turns,
            with_turn_id(turn_id),
            reworded(request.content, request.display_content),
        )
    } else {
        db.turns
    };
    let backup = BackupRowModel {
        turn_id,
        revision,
        payload: db.redo_backup(turn, request),
        created_at: now,
    };
    &&& after.backups == db.backups.push(backup)
    &&& after.turns == change_where(
        before,
        settled_turn(turn_id, request.session_id, request.expected_revision),
        claimed(reports, request.owner_pid, request.queue),
    )
    &&& after.segments == db.segments.push(after.segments.last())
    &&& segment_of(turn_id, revision)(after.segments.last())
    &&& after.events == db.events.push(after.events.last())
    &&& event_of(turn_id, revision)(after.events.last())
    &&& after.question_backups == db.question_backups + db.questions.filter(question_of(turn_id))
    &&& after.image_backups == db.image_backups + db.images.filter(image_of(turn_id))
    &&& after.artifact_backups == db.artifact_backups + db.artifacts.filter(artifact_of(turn_id))
    &&& after.queued_prompts == if initial {
        db.queued_prompts
    } else {
        change_where(
            db.queued_prompts,
            consumed_prompt(request.input_id, turn_id),
            reworded_prompt(request.content, request.display_content, Some(request.content)),
        )
    }
    &&& !initial ==> db.consumed(turn_id).len() > 0 && db.consumed(turn_id).last().prompt_id
        == request.input_id
    &&& after.checkpoints == db.checkpoints
    &&& after.sessions == db.touch_session(request.session_id, now).sessions
    &&& after.attachments == db.attachments
    &&& after.bindings == db.bindings
    &&& after.grants == db.grants
    &&& after.audit == db.audit
    &&& after.app_state == db.app_state
    &&& after.plugin_kv == db.plugin_kv
}

proof fn lemma_begun(db: DbModel, request: RedoRequest, now: Seq<char>)
    requires
        db.begin_redo(request, now) is Ok,
    ensures
        ({
            let after = db.begin_redo(request, now)->Ok_0.0;
            let turn = db.last_plain_turn(request.session_id)->0;
            let rewound = db.backed_up(turn, request, now).rewound(request, now);
            &&& rewound is Ok
            &&& rewound->Ok_0.0.questions == after.questions
            &&& rewound->Ok_0.0.images == after.images
            &&& rewound->Ok_0.0.artifacts == after.artifacts
            &&& rewound->Ok_0.0.loaded_items == after.loaded_items
            &&& exists|reports: Seq<char>| begun(db, after, request, turn, reports, now)
        }),
{
    let after = db.begin_redo(request, now)->Ok_0.0;
    let turn = db.last_plain_turn(request.session_id)->0;
    let (rewound, checkpoint) = db.backed_up(turn, request, now).rewound(request, now)->Ok_0;
    let reports = match checkpoint {
        Some(checkpoint) => checkpoint.prefix_tool_reports,
        None => Seq::empty(),
    };
    assert(begun(db, after, request, turn, crate::json::json_strings(reports), now)) by {
        reveal(begun);
    }
}

/// The rows of a turn that were added to a table of backups, taken away.
proof fn lemma_backup_rows_gone<V>(backups: Seq<V>, s: Seq<V>, p: spec_fn(V) -> bool)
    requires
        !any(backups, p),
    ensures
        (backups + s.filter(p)).filter(not(p)) == backups,
{
    lemma_filter_twice(s, p);
    lemma_filter_concat(backups, s.filter(p), not(p));
    lemma_filter_none(backups, p);
    lemma_filter_none(s.filter(p), not(p));
    assert(backups + Seq::<V>::empty() =~= backups);
}

/// The rows of a turn that were added to a table of backups, found again.
proof fn lemma_backup_rows_found<V>(backups: Seq<V>, s: Seq<V>, p: spec_fn(V) -> bool)
    requires
        !any(backups, p),
    ensures
        (backups + s.filter(p)).filter(p) == s.filter(p),
{
    lemma_filter_twice(s, p);
    lemma_filter_concat(backups, s.filter(p), p);
    lemma_filter_none(backups, p);
    assert(Seq::<V>::empty() + s.filter(p) =~= s.filter(p));
}

/// A row put into a table that has none like it, and taken away.
proof fn lemma_pushed_and_removed<V>(s: Seq<V>, v: V, p: spec_fn(V) -> bool)
    requires
        !any(s, p),
        p(v),
    ensures
        s.push(v).filter(not(p)) == s,
        first(s.push(v), p) == Some(v),
{
    lemma_filter_push(s, v, not(p));
    lemma_filter_none(s, p);
    lemma_first_push(s, v, p);
}

/// The journal of a redo, taken away.
proof fn lemma_journal_restored(
    db: DbModel,
    after: DbModel,
    turn_id: Seq<char>,
    revision: i64,
)
    requires
        no_redo_pending(db, turn_id, revision),
        after.segments == db.segments.push(after.segments.last()),
        segment_of(turn_id, revision)(after.segments.last()),
        after.events == db.events.push(after.events.last()),
        event_of(turn_id, revision)(after.events.last()),
    ensures
        after.segments.filter(not(segment_of(turn_id, revision))) == db.segments,
        after.events.filter(not(event_of(turn_id, revision))) == db.events,
{
    reveal(no_redo_pending);
    lemma_pushed_and_removed(
        db.segments,
        after.segments.last(),
        segment_of(turn_id, revision),
    );
    lemma_pushed_and_removed(db.events, after.events.last(), event_of(turn_id, revision));
}

proof fn lemma_questions_back(
    db: DbModel,
    after: DbModel,
    request: RedoRequest,
    turn: TurnRowModel,
    reports: Seq<char>,
    now: Seq<char>,
)
    requires
        ready_for_redo(db, request),
        begun(db, after, request, turn, reports, now),
        after.questions.filter(not(question_of(request.turn_id))) == db.questions.filter(
            not(question_of(request.turn_id)),
        ),
    ensures
        after.redo_taken_back(
            request.turn_id,
            request.session_id,
            (request.expected_revision + 1) as i64,
            db.redo_backup(turn, request),
        ).questions == at_end(db.questions, question_of(request.turn_id)),
{
    reveal(begun);
    reveal(no_redo_pending);
    lemma_backup_rows_found(db.question_backups, db.questions, question_of(request.turn_id));
}

proof fn lemma_question_backups_back(
    db: DbModel,
    after: DbModel,
    request: RedoRequest,
    turn: TurnRowModel,
    reports: Seq<char>,
    now: Seq<char>,
)
    requires
        ready_for_redo(db, request),
        begun(db, after, request, turn, reports, now),
    ensures
        after.redo_taken_back(
            request.turn_id,
            request.session_id,
            (request.expected_revision + 1) as i64,
            db.redo_backup(turn, request),
        ).question_backups == db.question_backups,
{
    reveal(begun);
    reveal(no_redo_pending);
    lemma_backup_rows_gone(db.question_backups, db.questions, question_of(request.turn_id));
}

proof fn lemma_images_back(
    db: DbModel,
    after: DbModel,
    request: RedoRequest,
    turn: TurnRowModel,
    reports: Seq<char>,
    now: Seq<char>,
)
    requires
        ready_for_redo(db, request),
        begun(db, after, request, turn, reports, now),
        after.images.filter(not(image_of(request.turn_id))) == db.images.filter(
            not(image_of(request.turn_id)),
        ),
    ensures
        after.redo_taken_back(
            request.turn_id,
            request.session_id,
            (request.expected_revision + 1) as i64,
            db.redo_backup(turn, request),
        ).images == at_end(db.images, image_of(request.turn_id)),
{
    reveal(begun);
    reveal(no_redo_pending);
    lemma_backup_rows_found(db.image_backups, db.images, image_of(request.turn_id));
}

proof fn lemma_image_backups_back(
    db: DbModel,
    after: DbModel,
    request: RedoRequest,
    turn: TurnRowModel,
    reports: Seq<char>,
    now: Seq<char>,
)
    requires
        ready_for_redo(db, request),
        begun(db, after, request, turn, reports, now),
    ensures
        after.redo_taken_back(
            request.turn_id,
            request.session_id,
            (request.expected_revision + 1) as i64,
            db.redo_backup(turn, request),
        ).image_backups == db.image_backups,
{
    reveal(begun);
    reveal(no_redo_pending);
    lemma_backup_rows_gone(db.image_backups, db.images, image_of(request.turn_id));
}

proof fn lemma_artifacts_back(
    db: DbModel,
    after: DbModel,
    request: RedoRequest,
    turn: TurnRowModel,
    reports: Seq<char>,
    now: Seq<char>,
)
    requires
        ready_for_redo(db, request),
        begun(db, after, request, turn, reports, now),
        after.artifacts.filter(not(artifact_of(request.turn_id))) == db.artifacts.filter(
            not(artifact_of(request.turn_id)),
        ),
    ensures
        after.redo_taken_back(
            request.turn_id,
            request.session_id,
            (request.expected_revision + 1) as i64,
            db.redo_backup(turn, request),
        ).artifacts == at_end(db.artifacts, artifact_of(request.turn_id)),
{
    reveal(begun);
    reveal(no_redo_pending);
    lemma_backup_rows_found(db.artifact_backups, db.artifacts, artifact_of(request.turn_id));
}

proof fn lemma_artifact_backups_back(
    db: DbModel,
    after: DbModel,
    request: RedoRequest,
    turn: TurnRowModel,
    reports: Seq<char>,
    now: Seq<char>,
)
    requires
        ready_for_redo(db, request),
        begun(db, after, request, turn, reports, now),
    ensures
        after.redo_taken_back(
            request.turn_id,
            request.session_id,
            (request.expected_revision + 1) as i64,
            db.redo_backup(turn, request),
        ).artifact_backups == db.artifact_backups,
{
    reveal(begun);
    reveal(no_redo_pending);
    lemma_backup_rows_gone(db.artifact_backups, db.artifacts, artifact_of(request.turn_id));
}

/// The other tables, once a redo was given up.
proof fn lemma_rest_back(
    db: DbModel,
    after: DbModel,
    request: RedoRequest,
    turn: TurnRowModel,
    reports: Seq<char>,
    now: Seq<char>,
)
    requires
        ready_for_redo(db, request),
        begun(db, after, request, turn, reports, now),
        !any(db.backups, backup_of(request.turn_id)),
        db.turns.contains(turn),
        turn.turn_id == request.turn_id,
        turn.session_id == request.session_id,
        turn.revision == request.expected_revision,
        turn.status != "running"@,
        request.expected_revision < i64::MAX,
        after.loaded_items.filter(not(item_of(request.session_id))) == db.loaded_items.filter(
            not(item_of(request.session_id)),
        ),
    ensures
        ({
            let turn_id = request.turn_id;
            let revision = (request.expected_revision + 1) as i64;
            let b = db.redo_backup(turn, request);
            let back = after.redo_taken_back(turn_id, request.session_id, revision, b);
            let others = db.checkpoints.filter(not(checkpoint_of(turn_id)));
            &&& first(after.backups, backup_at(turn_id, revision)) matches Some(row)
                && row.payload == b
            &&& first(after.turns, running_revision(turn_id, revision)) matches Some(row)
                && row.session_id == request.session_id
            &&& back.turns == db.turns
            &&& back.segments == db.segments
            &&& back.events == db.events
            &&& back.backups == db.backups
            &&& back.checkpoints == match first(db.checkpoints, checkpoint_of(turn_id)) {
                Some(row) => others.push(row),
                None => others,
            }
            &&& back.loaded_items == db.loaded_items.filter(not(item_of(request.session_id)))
                + db.items(request.session_id)
            &&& back.sessions == db.touch_session(request.session_id, now).sessions
            &&& back.attachments == db.attachments
            &&& back.bindings == db.bindings
            &&& back.grants == db.grants
            &&& back.audit == db.audit
            &&& back.app_state == db.app_state
            &&& back.plugin_kv == db.plugin_kv
        }),
{
    let turn_id = request.turn_id;
    let revision = (request.expected_revision + 1) as i64;
    reveal(begun);
    lemma_no_backup(db, turn_id, revision);
    lemma_pushed_and_removed(db.backups, after.backups.last(), backup_at(turn_id, revision));
    lemma_journal_restored(db, after, turn_id, revision);
    lemma_turns_restored(
        db,
        request,
        turn,
        reports,
        request.input_kind == RedoInputKind::Initial,
    );
    lemma_items_restored(db, request.session_id);
    lemma_first(db.checkpoints, checkpoint_of(turn_id));
}

/// The prompts of a redone turn, brought back.
proof fn lemma_prompts_restored(
    db: DbModel,
    after: DbModel,
    request: RedoRequest,
    turn: TurnRowModel,
    reports: Seq<char>,
    now: Seq<char>,
    kept: DbModel,
)
    requires
        ready_for_redo(db, request),
        begun(db, after, request, turn, reports, now),
        kept.queued_prompts == ({
            let b = db.redo_backup(turn, request);
            let late = after.queued_prompts.filter(consumed_by(request.turn_id)).map_values(
                prompt_id_of(),
            ).filter(|id: Seq<char>| !b.consumed_prompt_ids.contains(id));
            after.queued_prompts.filter(not(prompt_among(late)))
        }),
    ensures
        kept.followup_restored(request.turn_id, db.redo_backup(turn, request)) == (DbModel {
            queued_prompts: db.queued_prompts,
            ..kept
        }),
{
    reveal(begun);
    let turn_id = request.turn_id;
    let b = db.redo_backup(turn, request);
    let p = consumed_prompt(request.input_id, turn_id);
    let f = reworded_prompt(request.content, request.display_content, Some(request.content));
    let mine = db.queued_prompts.filter(consumed_by(turn_id));
    if request.input_kind == RedoInputKind::Followup {
        lemma_filter_change(db.queued_prompts, p, f, consumed_by(turn_id));
        lemma_map_change(mine, p, f, prompt_id_of());
        lemma_no_late_prompts(db, after.queued_prompts, turn_id, b);
        lemma_followup_restored(db, request, turn, kept);
    } else {
        lemma_no_late_prompts(db, after.queued_prompts, turn_id, b);
    }
}

/// A redo that is given up leaves the conversation as it was before: the turn,
/// its prompts, its journal, its questions, pictures and files, and the tools
/// that its session had loaded.
pub proof fn law_redo_given_up(db: DbModel, request: RedoRequest, now: Seq<char>)
    requires
        ready_for_redo(db, request),
        db.begin_redo(request, now) is Ok,
    ensures
        ({
            let (after, start) = db.begin_redo(request, now)->Ok_0;
            let given_up = after.restore_redo_backup(request.turn_id, start.revision);
            &&& given_up is Ok
            &&& given_up->Ok_0.1
            &&& undone(db, given_up->Ok_0.0, request, now)
        }),
{
    let session_id = request.session_id;
    let (after, start) = db.begin_redo(request, now)->Ok_0;
    let turn = db.last_plain_turn(session_id)->0;
    let plain = db.turns.filter(plain_turn(session_id));
    let ordered = order_by(plain, by_seq());
    assert(ordered[ordered.len() - 1] == turn);
    assert(ordered.contains(turn));
    lemma_order_contains(plain, by_seq(), turn);
    lemma_filter_contains(db.turns, plain_turn(session_id), turn);
    lemma_begun(db, request, now);
    let reports = choose|reports: Seq<char>| begun(db, after, request, turn, reports, now);
    lemma_children_restored(db, after, request, turn, now);
    lemma_given_up(db, after, request, turn, reports, now);
}

proof fn lemma_given_up(
    db: DbModel,
    after: DbModel,
    request: RedoRequest,
    turn: TurnRowModel,
    reports: Seq<char>,
    now: Seq<char>,
)
    requires
        ready_for_redo(db, request),
        begun(db, after, request, turn, reports, now),
        !any(db.backups, backup_of(request.turn_id)),
        db.turns.contains(turn),
        turn.turn_id == request.turn_id,
        turn.session_id == request.session_id,
        turn.revision == request.expected_revision,
        turn.status != "running"@,
        request.expected_revision < i64::MAX,
        after.questions.filter(not(question_of(request.turn_id))) == db.questions.filter(
            not(question_of(request.turn_id)),
        ),
        after.images.filter(not(image_of(request.turn_id))) == db.images.filter(
            not(image_of(request.turn_id)),
        ),
        after.artifacts.filter(not(artifact_of(request.turn_id))) == db.artifacts.filter(
            not(artifact_of(request.turn_id)),
        ),
        after.loaded_items.filter(not(item_of(request.session_id))) == db.loaded_items.filter(
            not(item_of(request.session_id)),
        ),
    ensures
        ({
            let given_up = after.restore_redo_backup(
                request.turn_id,
                (request.expected_revision + 1) as i64,
            );
            &&& given_up is Ok
            &&& given_up->Ok_0.1
            &&& undone(db, given_up->Ok_0.0, request, now)
        }),
{
    let turn_id = request.turn_id;
    let revision = (request.expected_revision + 1) as i64;
    let b = db.redo_backup(turn, request);
    lemma_items_restored(db, request.session_id);
    lemma_questions_back(db, after, request, turn, reports, now);
    lemma_question_backups_back(db, after, request, turn, reports, now);
    lemma_images_back(db, after, request, turn, reports, now);
    lemma_image_backups_back(db, after, request, turn, reports, now);
    lemma_artifacts_back(db, after, request, turn, reports, now);
    lemma_artifact_backups_back(db, after, request, turn, reports, now);
    lemma_rest_back(db, after, request, turn, reports, now);
    let back = after.restore_redo_backup(turn_id, revision)->Ok_0.0;
    let late = after.queued_prompts.filter(consumed_by(turn_id)).map_values(prompt_id_of()).filter(
        |id: Seq<char>| !b.consumed_prompt_ids.contains(id),
    );
    let kept = DbModel {
        queued_prompts: after.queued_prompts.filter(not(prompt_among(late))),
        ..back
    };
    lemma_prompts_restored(db, after, request, turn, reports, now, kept);
}

proof fn lemma_no_backup(db: DbModel, turn_id: Seq<char>, revision: i64)
    requires
        !any(db.backups, backup_of(turn_id)),
    ensures
        !any(db.backups, backup_at(turn_id, revision)),
{
    if any(db.backups, backup_at(turn_id, revision)) {
        let i = choose|i: int|
            0 <= i < db.backups.len() && backup_at(turn_id, revision)(#[trigger] db.backups[i]);
        assert(backup_of(turn_id)(db.backups[i]));
    }
}

/// A redo does not begin while another turn of the session runs, nor on a turn
/// that has moved on since it was offered.
pub proof fn law_redo_needs_a_settled_conversation(
    db: DbModel,
    request: RedoRequest,
    now: Seq<char>,
)
    requires
        db.begin_redo(request, now) is Ok,
    ensures
        db.last_plain_turn(request.session_id) matches Some(turn) && {
            &&& turn.turn_id == request.turn_id
            &&& turn.revision == request.expected_revision
            &&& turn.status != "running"@
        },
        !any(
            db.turns,
            crate::state::redo::other_running(request.session_id, request.turn_id),
        ),
{
}

/// What is offered for a redo can be begun, as far as the conversation has not
/// moved on and no other turn runs: the target is the last turn of the session
/// and its last input.
pub proof fn law_redo_offer_names_last_input(db: DbModel, session_id: Seq<char>)
    requires
        db.redo_candidate(session_id) is Some,
    ensures
        ({
            let offer = db.redo_candidate(session_id)->0;
            let turn = db.last_plain_turn(session_id)->0;
            &&& db.last_plain_turn(session_id) is Some
            &&& offer.turn_id == turn.turn_id
            &&& offer.revision == turn.revision
            &&& turn.status != "running"@
            &&& offer.input_kind == RedoInputKind::Initial ==> offer.input_id == turn.turn_id
                && db.consumed(turn.turn_id).len() == 0
            &&& offer.input_kind == RedoInputKind::Followup ==> db.consumed(turn.turn_id).len() > 0
                && db.consumed(turn.turn_id).last().prompt_id == offer.input_id
        }),
{
}

} // verus!
