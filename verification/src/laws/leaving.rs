//! Laws of what leaves the store with a turn or a session, and of what stays.

use crate::facts::{lemma_filter_contains, lemma_filter_none};
use crate::laws::reading::{lemma_last_of_session, lemma_listing};
use crate::state::cascade::{
    artifact_among, backup_among, binding_of_sessions, checkpoint_among, event_among, image_among,
    item_of_sessions, question_among, segment_among, session_id_of, turn_id_of, turn_in_sessions,
};
use crate::state::checkpoint::item_of;
use crate::state::compact::{turn_anywhere, turn_up_to, unsummarised, visible_running};
use crate::state::db::DbModel;
use crate::state::redo::with_turn_id;
use crate::state::reset::{prompt_of_sessions, subagent_among, subagent_of};
use crate::state::rows::{
    BackupRowModel, BindingRowModel, CheckpointRowModel, JournalEventRowModel,
    JournalSegmentRowModel, LoadedItemRowModel, QuestionRowModel, QueuedPromptRowModel,
    SessionRowModel, TurnRowModel,
};
use crate::state::sessions::{by_seq, prompt_of_session, with_persona, with_session_id};
use crate::state::turns::{turn_of, visible_turn};
use crate::state::types::{ArtifactAssetDataModel, ImageAssetDataModel};
use crate::table::{any, limited, not, order_by};
use vstd::prelude::*;

verus! {

/// Whether an id is that of a turn that leaves.
pub open spec fn leaves(
    turns: Seq<TurnRowModel>,
    gone: spec_fn(TurnRowModel) -> bool,
    id: Seq<char>,
) -> bool {
    exists|i: int| 0 <= i < turns.len() && gone(#[trigger] turns[i]) && turns[i].turn_id == id
}

/// Whether those turns left that satisfy `gone`, with their journals, their
/// checkpoints, their questions and what they produced, and all other turns stand
/// as they stood with what is theirs.
pub open spec fn turns_left(
    db: DbModel,
    after: DbModel,
    gone: spec_fn(TurnRowModel) -> bool,
) -> bool {
    &&& after.turns == db.turns.filter(|r: TurnRowModel| !gone(r))
    &&& after.segments == db.segments.filter(
        |r: JournalSegmentRowModel| !leaves(db.turns, gone, r.turn_id),
    )
    &&& after.events == db.events.filter(
        |r: JournalEventRowModel| !leaves(db.turns, gone, r.turn_id),
    )
    &&& after.checkpoints == db.checkpoints.filter(
        |r: CheckpointRowModel| !leaves(db.turns, gone, r.turn_id),
    )
    &&& after.backups == db.backups.filter(
        |r: BackupRowModel| !leaves(db.turns, gone, r.turn_id),
    )
    &&& after.questions == db.questions.filter(
        |r: QuestionRowModel| !leaves(db.turns, gone, r.turn_id),
    )
    &&& after.images == db.images.filter(
        |r: ImageAssetDataModel| !leaves(db.turns, gone, r.asset.turn_id),
    )
    &&& after.artifacts == db.artifacts.filter(
        |r: ArtifactAssetDataModel| !leaves(db.turns, gone, r.asset.turn_id),
    )
}

proof fn lemma_leaves(turns: Seq<TurnRowModel>, p: spec_fn(TurnRowModel) -> bool, id: Seq<char>)
    ensures
        turns.filter(p).map_values(turn_id_of()).contains(id) == leaves(turns, p, id),
{
    let mine = turns.filter(p);
    let ids = mine.map_values(turn_id_of());
    if ids.contains(id) {
        let k = ids.index_of(id);
        assert(mine.contains(mine[k]));
        lemma_filter_contains(turns, p, mine[k]);
        let i = turns.index_of(mine[k]);
        assert(p(turns[i]));
    }
    if leaves(turns, p, id) {
        let i = choose|i: int|
            0 <= i < turns.len() && p(#[trigger] turns[i]) && turns[i].turn_id == id;
        assert(turns.contains(turns[i]));
        lemma_filter_contains(turns, p, turns[i]);
        let k = mine.index_of(turns[i]);
        assert(ids[k] == id);
    }
}

proof fn lemma_turns_left(db: DbModel, p: spec_fn(TurnRowModel) -> bool)
    ensures
        turns_left(db, db.without_turns(p), p),
{
    let ids = db.turns.filter(p).map_values(turn_id_of());
    assert forall|id: Seq<char>| #[trigger] ids.contains(id) == leaves(db.turns, p, id) by {
        lemma_leaves(db.turns, p, id);
    }
    assert(not(p) =~= |r: TurnRowModel| !p(r));
    assert(not(segment_among(ids)) =~= |r: JournalSegmentRowModel|
        !leaves(db.turns, p, r.turn_id));
    assert(not(event_among(ids)) =~= |r: JournalEventRowModel|
        !leaves(db.turns, p, r.turn_id));
    assert(not(checkpoint_among(ids)) =~= |r: CheckpointRowModel|
        !leaves(db.turns, p, r.turn_id));
    assert(not(backup_among(ids)) =~= |r: BackupRowModel|
        !leaves(db.turns, p, r.turn_id));
    assert(not(question_among(ids)) =~= |r: QuestionRowModel|
        !leaves(db.turns, p, r.turn_id));
    assert(not(image_among(ids)) =~= |r: ImageAssetDataModel|
        !leaves(db.turns, p, r.asset.turn_id));
    assert(not(artifact_among(ids)) =~= |r: ArtifactAssetDataModel|
        !leaves(db.turns, p, r.asset.turn_id));
}

/// Taking the last turn back removes that turn and what belongs to it, and nothing
/// else, and gives back what the user had asked.
pub proof fn law_undo_takes_the_last_turn_back(db: DbModel, session_id: Seq<char>, i: int)
    requires
        0 <= i < db.turns.len(),
        db.turns[i].session_id == session_id,
        !db.turns[i].hidden,
        !db.turns[i].is_summary,
        forall|k: int|
            0 <= k < db.turns.len() && (#[trigger] db.turns[k]).session_id == session_id
                && !db.turns[k].hidden ==> db.turns[k].status != "running"@ && (k != i
                ==> db.turns[k].seq < db.turns[i].seq),
    ensures
        ({
            let (after, told) = db.undo_last_turn(session_id);
            let id = db.turns[i].turn_id;
            &&& told == (1usize, Some(db.turns[i].user_content))
            &&& turns_left(db, after, |r: TurnRowModel| r.turn_id == id)
            &&& after.sessions == db.sessions
            &&& after.queued_prompts == db.queued_prompts
            &&& after.loaded_items == db.loaded_items
        }),
{
    lemma_last_of_session(db, visible_turn(session_id), i);
    let id = db.turns[i].turn_id;
    let p = |r: TurnRowModel| r.turn_id == id;
    assert(with_turn_id(id) =~= p);
    if any(db.turns, visible_running(session_id)) {
        let q = visible_running(session_id);
        let k = choose|k: int| 0 <= k < db.turns.len() && q(#[trigger] db.turns[k]);
        assert(db.turns[k].status != "running"@);
    }
    lemma_turns_left(db, p);
}

/// Nothing is taken back while a turn of the session runs in view, nor where
/// nothing is in view.
pub proof fn law_undo_waits_for_running_turns(db: DbModel, session_id: Seq<char>)
    requires
        (exists|k: int|
            0 <= k < db.turns.len() && (#[trigger] db.turns[k]).session_id == session_id
                && !db.turns[k].hidden && db.turns[k].status == "running"@) || (forall|k: int|
            0 <= k < db.turns.len() ==> (#[trigger] db.turns[k]).session_id != session_id
                || db.turns[k].hidden),
    ensures
        db.undo_last_turn(session_id) == (db, (0usize, None::<Seq<char>>)),
{
    if exists|k: int|
        0 <= k < db.turns.len() && (#[trigger] db.turns[k]).session_id == session_id
            && !db.turns[k].hidden && db.turns[k].status == "running"@ {
        let k = choose|k: int|
            0 <= k < db.turns.len() && (#[trigger] db.turns[k]).session_id == session_id
                && !db.turns[k].hidden && db.turns[k].status == "running"@;
        assert(visible_running(session_id)(db.turns[k]));
    } else {
        assert(!any(db.turns, visible_turn(session_id)));
        lemma_filter_none(db.turns, visible_turn(session_id));
        lemma_listing(db.turns, visible_turn(session_id), by_seq());
    }
}

/// Hiding turns puts those of the session up to a place out of view, tells how
/// many there are, and touches no other.
pub proof fn law_turns_up_to_a_place_are_hidden(
    db: DbModel,
    session_id: Seq<char>,
    seq: i64,
    i: int,
)
    requires
        0 <= i < db.turns.len(),
    ensures
        ({
            let (after, told) = db.hide_turns_before_seq(session_id, seq);
            let was = db.turns[i];
            &&& after.turns.len() == db.turns.len()
            &&& after.turns[i] == if was.session_id == session_id && was.seq <= seq {
                TurnRowModel { hidden: true, ..was }
            } else {
                was
            }
            &&& told == db.turns.filter(
                |r: TurnRowModel| r.session_id == session_id && r.seq <= seq,
            ).len()
            &&& after == (DbModel { turns: after.turns, ..db })
        }),
{
    assert(turn_up_to(session_id, seq) =~= |r: TurnRowModel|
        r.session_id == session_id && r.seq <= seq);
}

/// A reset of the history of a session takes its turns and the tools that it had
/// loaded, and leaves everything of other sessions, and its waiting prompts.
pub proof fn law_history_reset_leaves_others(db: DbModel, id: Seq<char>)
    ensures
        ({
            let after = db.reset_history(id);
            &&& turns_left(db, after, |r: TurnRowModel| r.session_id == id)
            &&& after.loaded_items == db.loaded_items.filter(
                |r: LoadedItemRowModel| r.session_id != id,
            )
            &&& after.queued_prompts == db.queued_prompts
            &&& after.sessions == db.sessions
            &&& after.bindings == db.bindings
            &&& after.grants == db.grants
            &&& after.app_state == db.app_state
            &&& after.plugin_kv == db.plugin_kv
            &&& after.attachments == db.attachments
        }),
{
    let p = |r: TurnRowModel| r.session_id == id;
    assert(turn_of(id) =~= p);
    lemma_turns_left(db, p);
    assert(not(item_of(id)) =~= |r: LoadedItemRowModel|
        r.session_id != id);
}

/// The sessions that leave.
proof fn lemma_sessions_left(db: DbModel, p: spec_fn(SessionRowModel) -> bool, id: Seq<char>)
    ensures
        db.sessions.filter(p).map_values(session_id_of()).contains(id) == exists|i: int|
            0 <= i < db.sessions.len() && p(#[trigger] db.sessions[i])
                && db.sessions[i].record.session_id == id,
{
    let mine = db.sessions.filter(p);
    let ids = mine.map_values(session_id_of());
    if ids.contains(id) {
        let k = ids.index_of(id);
        assert(mine.contains(mine[k]));
        lemma_filter_contains(db.sessions, p, mine[k]);
        let i = db.sessions.index_of(mine[k]);
        assert(p(db.sessions[i]) && db.sessions[i].record.session_id == id);
    }
    if exists|i: int|
        0 <= i < db.sessions.len() && p(#[trigger] db.sessions[i])
            && db.sessions[i].record.session_id == id {
        let i = choose|i: int|
            0 <= i < db.sessions.len() && p(#[trigger] db.sessions[i])
                && db.sessions[i].record.session_id == id;
        assert(db.sessions.contains(db.sessions[i]));
        lemma_filter_contains(db.sessions, p, db.sessions[i]);
        let k = mine.index_of(db.sessions[i]);
        assert(ids[k] == id);
    }
}

/// Whether a session is a helper of another.
pub open spec fn helps(r: SessionRowModel, id: Seq<char>) -> bool {
    r.record.parent_session_id == Some(id) && r.record.kind == "subagent"@
}

/// A reset of a session touches nothing of a session that is neither it nor a
/// helper of it; its own record stays, and the helpers leave.
pub proof fn law_reset_leaves_others(
    db: DbModel,
    id: Seq<char>,
    turn: TurnRowModel,
    prompt: QueuedPromptRowModel,
    item: LoadedItemRowModel,
    binding: BindingRowModel,
)
    ensures
        ({
            let after = db.reset(id);
            let stays = |other: Seq<char>|
                other != id && forall|i: int|
                    0 <= i < db.sessions.len() && (#[trigger] db.sessions[i]).record.session_id
                        == other ==> !helps(db.sessions[i], id);
            &&& after.sessions == db.sessions.filter(|r: SessionRowModel| !helps(r, id))
            &&& after.turns.contains(turn) ==> db.turns.contains(turn)
            &&& stays(turn.session_id) ==> after.turns.contains(turn) == db.turns.contains(turn)
            &&& after.queued_prompts.contains(prompt) == (db.queued_prompts.contains(prompt)
                && prompt.session_id != id)
            &&& after.loaded_items.contains(item) ==> db.loaded_items.contains(item)
            &&& stays(item.session_id) ==> after.loaded_items.contains(item)
                == db.loaded_items.contains(item)
            &&& after.bindings.contains(binding) ==> db.bindings.contains(binding)
            &&& (binding.session_id == id || stays(binding.session_id)) && (forall|i: int|
                0 <= i < db.sessions.len() && (#[trigger] db.sessions[i]).record.session_id
                    == binding.session_id ==> !helps(db.sessions[i], id))
                ==> after.bindings.contains(binding) == db.bindings.contains(binding)
            &&& after.grants == db.grants
            &&& after.app_state == db.app_state
            &&& after.plugin_kv == db.plugin_kv
        }),
{
    let p = subagent_of(id);
    assert(not(p) =~= |r: SessionRowModel| !helps(r, id));
    let ids = db.sessions.filter(p).map_values(session_id_of());
    lemma_sessions_left(db, p, turn.session_id);
    lemma_sessions_left(db, p, item.session_id);
    lemma_sessions_left(db, p, binding.session_id);
    lemma_filter_contains(db.turns, not(turn_of(id)), turn);
    lemma_filter_contains(db.turns.filter(not(turn_of(id))), not(turn_in_sessions(ids)), turn);
    lemma_filter_contains(
        db.queued_prompts,
        not(prompt_of_session(id)),
        prompt,
    );
    let own = not(item_of(id));
    lemma_filter_contains(db.loaded_items, own, item);
    lemma_filter_contains(
        db.loaded_items.filter(own),
        not(item_of_sessions(ids)),
        item,
    );
    lemma_filter_contains(
        db.bindings,
        not(binding_of_sessions(ids)),
        binding,
    );
}

/// Deleting a session takes its record, its turns, its prompts, its loaded tools
/// and its bindings, and nothing of any other session.
pub proof fn law_deleted_session_leaves_others(
    db: DbModel,
    id: Seq<char>,
    turn: TurnRowModel,
    prompt: QueuedPromptRowModel,
    item: LoadedItemRowModel,
    binding: BindingRowModel,
)
    requires
        exists|i: int|
            0 <= i < db.sessions.len() && (#[trigger] db.sessions[i]).record.session_id == id,
    ensures
        db.delete_session(id) is Ok,
        ({
            let after = db.delete_session(id)->Ok_0.0;
            &&& after.sessions == db.sessions.filter(
                |r: SessionRowModel| r.record.session_id != id,
            )
            &&& after.turns.contains(turn) == (db.turns.contains(turn) && turn.session_id != id)
            &&& after.queued_prompts.contains(prompt) == (db.queued_prompts.contains(prompt)
                && prompt.session_id != id)
            &&& after.loaded_items.contains(item) == (db.loaded_items.contains(item)
                && item.session_id != id)
            &&& after.bindings.contains(binding) == (db.bindings.contains(binding)
                && binding.session_id != id)
            &&& after.grants == db.grants
            &&& after.app_state == db.app_state
            &&& after.plugin_kv == db.plugin_kv
        }),
{
    let p = with_session_id(id);
    let at = choose|i: int|
        0 <= i < db.sessions.len() && (#[trigger] db.sessions[i]).record.session_id == id;
    assert(p(db.sessions[at]));
    assert(not(p) =~= |r: SessionRowModel| r.record.session_id != id);
    let ids = db.sessions.filter(p).map_values(session_id_of());
    assert forall|other: Seq<char>| #[trigger] ids.contains(other) == (other == id) by {
        lemma_sessions_left(db, p, other);
    }
    lemma_filter_contains(db.turns, not(turn_in_sessions(ids)), turn);
    lemma_filter_contains(
        db.queued_prompts,
        not(prompt_of_session(id)),
        prompt,
    );
    lemma_filter_contains(
        db.loaded_items,
        not(item_of_sessions(ids)),
        item,
    );
    lemma_filter_contains(
        db.bindings,
        not(binding_of_sessions(ids)),
        binding,
    );
}

/// Deleting a persona takes its sessions with all that is theirs, and nothing of
/// other personas.
pub proof fn law_deleted_persona_leaves_others(
    db: DbModel,
    persona: Seq<char>,
    turn: TurnRowModel,
    binding: BindingRowModel,
)
    ensures
        ({
            let after = db.without_persona(persona);
            let goes = |id: Seq<char>|
                exists|i: int|
                    0 <= i < db.sessions.len() && (#[trigger] db.sessions[i]).record.persona
                        == persona && db.sessions[i].record.session_id == id;
            &&& after.sessions == db.sessions.filter(
                |r: SessionRowModel| r.record.persona != persona,
            )
            &&& after.turns.contains(turn) == (db.turns.contains(turn) && !goes(turn.session_id))
            &&& after.bindings.contains(binding) == (db.bindings.contains(binding) && !goes(
                binding.session_id,
            ))
            &&& after.grants == db.grants
            &&& after.queued_prompts == db.queued_prompts
        }),
{
    let p = with_persona(persona);
    assert(not(p) =~= |r: SessionRowModel| r.record.persona != persona);
    let ids = db.sessions.filter(p).map_values(session_id_of());
    let goes = |id: Seq<char>|
        exists|i: int|
            0 <= i < db.sessions.len() && (#[trigger] db.sessions[i]).record.persona == persona
                && db.sessions[i].record.session_id == id;
    assert forall|id: Seq<char>| #[trigger] ids.contains(id) == goes(id) by {
        lemma_sessions_left(db, p, id);
        if goes(id) {
            let i = choose|i: int|
                0 <= i < db.sessions.len() && (#[trigger] db.sessions[i]).record.persona
                    == persona && db.sessions[i].record.session_id == id;
            assert(p(db.sessions[i]));
        }
    }
    lemma_filter_contains(db.turns, not(turn_in_sessions(ids)), turn);
    lemma_filter_contains(
        db.bindings,
        not(binding_of_sessions(ids)),
        binding,
    );
}

/// Clearing the contexts of some sessions takes their turns, prompts and loaded
/// tools. The sessions themselves stay, but for helpers; of all other sessions
/// everything stays.
pub proof fn law_cleared_contexts_leave_others(
    db: DbModel,
    ids: Seq<Seq<char>>,
    turn: TurnRowModel,
    prompt: QueuedPromptRowModel,
    item: LoadedItemRowModel,
)
    ensures
        ({
            let after = db.contexts_reset(ids);
            &&& after.turns.contains(turn) == (db.turns.contains(turn) && !ids.contains(
                turn.session_id,
            ))
            &&& after.queued_prompts.contains(prompt) == (db.queued_prompts.contains(prompt)
                && !ids.contains(prompt.session_id))
            &&& after.loaded_items.contains(item) == (db.loaded_items.contains(item)
                && !ids.contains(item.session_id))
            &&& after.sessions == db.sessions.filter(
                |r: SessionRowModel|
                    !(r.record.kind == "subagent"@ && ids.contains(r.record.session_id)),
            )
            &&& after.grants == db.grants
            &&& after.app_state == db.app_state
            &&& after.plugin_kv == db.plugin_kv
        }),
{
    let p = subagent_among(ids);
    assert(not(p) =~= |r: SessionRowModel|
        !(r.record.kind == "subagent"@ && ids.contains(r.record.session_id)));
    let gone = db.sessions.filter(p).map_values(session_id_of());
    assert forall|id: Seq<char>| #[trigger] gone.contains(id) implies ids.contains(id) by {
        lemma_sessions_left(db, p, id);
    }
    lemma_filter_contains(db.turns, not(turn_in_sessions(ids)), turn);
    lemma_filter_contains(
        db.turns.filter(not(turn_in_sessions(ids))),
        not(turn_in_sessions(gone)),
        turn,
    );
    lemma_filter_contains(
        db.queued_prompts,
        not(prompt_of_sessions(ids)),
        prompt,
    );
    let own = not(item_of_sessions(ids));
    lemma_filter_contains(db.loaded_items, own, item);
    lemma_filter_contains(
        db.loaded_items.filter(own),
        not(item_of_sessions(gone)),
        item,
    );
}

/// Trimming takes the oldest turns of a session, as many as was asked for or all
/// that there are, hands them out, oldest first, and takes no other. A summary is
/// not trimmed.
pub proof fn law_oldest_turns_are_trimmed(
    db: DbModel,
    session_id: Seq<char>,
    n: nat,
    i: int,
    k: int,
)
    requires
        0 <= i < db.turns.len(),
        db.turns[i].session_id == session_id,
        !db.turns[i].is_summary,
        forall|a: int, b: int|
            0 <= a < b < db.turns.len() ==> (#[trigger] db.turns[a]).turn_id != (
            #[trigger] db.turns[b]).turn_id,
    ensures
        ({
            let (after, told) = db.trim_oldest_turns(session_id, n);
            let all = db.turns.filter(
                |r: TurnRowModel| r.session_id == session_id && !r.is_summary,
            ).len();
            &&& told.len() == if n < all {
                n
            } else {
                all
            }
            // What stays is not older than what was handed out.
            &&& after.turns.contains(db.turns[i]) && 0 <= k < told.len() ==> told[k].seq
                <= db.turns[i].seq
            &&& !after.turns.contains(db.turns[i]) ==> exists|m: int|
                0 <= m < told.len() && (#[trigger] told[m]).turn_id == db.turns[i].turn_id
        }),
{
    let p = unsummarised(session_id);
    assert(p =~= |r: TurnRowModel| r.session_id == session_id && !r.is_summary);
    let ordered = order_by(db.turns.filter(p), by_seq());
    lemma_listing(db.turns, p, by_seq());
    let rows = limited(ordered, n);
    let ids = rows.map_values(turn_id_of());
    let told = db.trim_oldest_turns(session_id, n).1;
    let row = db.turns[i];
    assert(db.turns.contains(row));
    lemma_filter_contains(db.turns, not(turn_anywhere(ids)), row);
    assert(ordered.contains(row));
    let at = ordered.index_of(row);
    if at < rows.len() {
        assert(rows[at] == row);
        assert(ids[at] == row.turn_id);
        assert(told[at].turn_id == row.turn_id);
    } else if 0 <= k < told.len() {
        assert(rows[k] == ordered[k]);
        assert(!by_seq()(ordered[at], ordered[k]));
    }
    if ids.contains(row.turn_id) {
        let m = ids.index_of(row.turn_id);
        assert(told[m].turn_id == row.turn_id);
    }
}

} // verus!
