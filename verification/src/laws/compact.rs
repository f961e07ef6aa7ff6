//! Laws of folding a conversation into a summary and of making room in it.

use crate::facts::{
    lemma_any_push, lemma_filter_change, lemma_filter_contains, lemma_filter_none,
    lemma_filter_push, lemma_limited_change, lemma_order_change, lemma_order_contains,
};
use crate::state::cascade::{
    artifact_among, backup_among, checkpoint_among, event_among, image_among, question_among,
    segment_among, turn_id_of,
};
use crate::state::compact::{
    archived, completed_plain, evicted_from, hidden_among, prunable, prune_savings, pruned,
    set_hidden, turn_among, united, visible_among, visible_running,
};
use crate::state::db::DbModel;
use crate::state::keys::{
    artifact_turn, backup_turn, checkpoint_turn, event_turn, image_turn, lemma_unique_at,
    question_turn, segment_turn, tied,
};
use crate::state::redo::with_turn_id;
use crate::state::rows::{EvictedRowModel, TurnRowModel};
use crate::state::sessions::{by_seq, fold};
use crate::state::turns::{largest_seq, turn_of, visible_summary, visible_turn};
use crate::state::types::{EvictedTurnModel, TurnTokensModel};
use crate::table::{any, change_where, insert_ordered, last_of, limited, not, order_by};
use vstd::prelude::*;

verus! {

proof fn lemma_none_of<V>(
    s: Seq<V>,
    to: spec_fn(V) -> Seq<char>,
    ids: Seq<Seq<char>>,
    id: Seq<char>,
    p: spec_fn(V) -> bool,
)
    requires
        tied(s, to, ids),
        !ids.contains(id),
        forall|v: V| #[trigger] p(v) ==> to(v) == id,
    ensures
        s.filter(not(p)) == s,
{
    if any(s, p) {
        let i = choose|i: int| 0 <= i < s.len() && p(#[trigger] s[i]);
        assert(ids.contains(to(s[i])));
    }
    lemma_filter_none(s, p);
}

/// Nothing hangs off a turn that does not exist.
proof fn lemma_childless(db: DbModel, turn_id: Seq<char>)
    requires
        db.well_formed(),
        !db.has_turn(turn_id),
    ensures
        db.without_children(seq![turn_id]) == db,
{
    let ids = db.turn_ids();
    let gone = seq![turn_id];
    if ids.contains(turn_id) {
        assert(with_turn_id(turn_id)(db.turns[ids.index_of(turn_id)]));
    }
    lemma_none_of(db.segments, segment_turn(), ids, turn_id, segment_among(gone));
    lemma_none_of(db.events, event_turn(), ids, turn_id, event_among(gone));
    lemma_none_of(db.checkpoints, checkpoint_turn(), ids, turn_id, checkpoint_among(gone));
    lemma_none_of(db.backups, backup_turn(), ids, turn_id, backup_among(gone));
    lemma_none_of(db.questions, question_turn(), ids, turn_id, question_among(gone));
    lemma_none_of(db.question_backups, question_turn(), ids, turn_id, question_among(gone));
    lemma_none_of(db.images, image_turn(), ids, turn_id, image_among(gone));
    lemma_none_of(db.image_backups, image_turn(), ids, turn_id, image_among(gone));
    lemma_none_of(db.artifacts, artifact_turn(), ids, turn_id, artifact_among(gone));
    lemma_none_of(db.artifact_backups, artifact_turn(), ids, turn_id, artifact_among(gone));
}

proof fn lemma_united(a: Seq<Seq<char>>, b: Seq<Seq<char>>, id: Seq<char>)
    requires
        united(a, b).contains(id),
    ensures
        a.contains(id) || b.contains(id),
    decreases b.len(),
{
    if b.len() > 0 {
        let rest = united(a, b.drop_last());
        if id == b.last() {
            assert(b[b.len() - 1] == id);
        } else {
            if !rest.contains(b.last()) {
                let i = united(a, b).index_of(id);
                assert(rest[i] == id);
            }
            lemma_united(a, b.drop_last(), id);
            if b.drop_last().contains(id) {
                assert(b[b.drop_last().index_of(id)] == id);
            }
        }
    }
}

/// No turn that is out of view has the id of one in view.
proof fn lemma_in_view(db: DbModel, session_id: Seq<char>, fold_turn_ids: Seq<Seq<char>>)
    requires
        db.well_formed(),
        forall|id: Seq<char>| #[trigger]
            fold_turn_ids.contains(id) ==> db.visible_ids(session_id).contains(id),
    ensures
        !any(
            db.turns,
            hidden_among(session_id, united(fold_turn_ids, db.summary_ids(session_id))),
        ),
{
    let ids = united(fold_turn_ids, db.summary_ids(session_id));
    let p = hidden_among(session_id, ids);
    if any(db.turns, p) {
        let i = choose|i: int| 0 <= i < db.turns.len() && p(#[trigger] db.turns[i]);
        let id = db.turns[i].turn_id;
        lemma_united(fold_turn_ids, db.summary_ids(session_id), id);
        let seen = db.turns.filter(visible_turn(session_id));
        let row = if fold_turn_ids.contains(id) {
            let ordered = order_by(seen, by_seq());
            let k = db.visible_ids(session_id).index_of(id);
            assert(ordered.contains(ordered[k]));
            lemma_order_contains(seen, by_seq(), ordered[k]);
            lemma_filter_contains(db.turns, visible_turn(session_id), ordered[k]);
            ordered[k]
        } else {
            let summaries = db.turns.filter(visible_summary(session_id));
            let k = db.summary_ids(session_id).index_of(id);
            assert(summaries.contains(summaries[k]));
            lemma_filter_contains(db.turns, visible_summary(session_id), summaries[k]);
            summaries[k]
        };
        lemma_unique_at(db.turns, turn_id_of(), i, db.turns.index_of(row));
    }
}

/// No turn stands behind the last place of its session.
pub proof fn lemma_largest_seq(turns: Seq<TurnRowModel>, row: TurnRowModel)
    requires
        turns.contains(row),
    ensures
        row.seq <= largest_seq(turns),
    decreases turns.len(),
{
    if turns.len() > 0 {
        let rest = turns.drop_last();
        let i = turns.index_of(row);
        if i < rest.len() {
            assert(rest[i] == row);
            lemma_largest_seq(rest, row);
        }
    }
}

/// The turns of a session keep their last place when they are hidden.
proof fn lemma_visible_end(
    db: DbModel,
    session_id: Seq<char>,
    ids: Seq<Seq<char>>,
    row: TurnRowModel,
)
    requires
        row.session_id == session_id,
        !row.hidden,
        row.seq > db.latest_turn_seq(session_id),
    ensures
        ({
            let turns = change_where(db.turns, visible_among(session_id, ids), set_hidden(true));
            last_of(order_by(turns.push(row).filter(visible_turn(session_id)), by_seq())) == Some(
                row,
            )
        }),
{
    let p = visible_among(session_id, ids);
    let turns = change_where(db.turns, p, set_hidden(true));
    let seen = turns.filter(visible_turn(session_id));
    lemma_filter_push(turns, row, visible_turn(session_id));
    let ordered = order_by(seen, by_seq());
    assert(seen.push(row).drop_last() =~= seen);
    if ordered.len() > 0 {
        let last = ordered.last();
        assert(ordered[ordered.len() - 1] == last);
        assert(ordered.contains(last));
        lemma_order_contains(seen, by_seq(), last);
        lemma_filter_contains(turns, visible_turn(session_id), last);
        let i = turns.index_of(last);
        assert(db.turns.contains(db.turns[i]));
        lemma_filter_contains(db.turns, turn_of(session_id), db.turns[i]);
        lemma_largest_seq(db.turns.filter(turn_of(session_id)), db.turns[i]);
        assert(last.seq == db.turns[i].seq);
    }
    assert(insert_ordered(ordered, row, by_seq()) == ordered.push(row));
}

/// Taking a summary back restores the conversation that was folded into it, to
/// the letter: what was in view is in view again.
pub proof fn law_undo_takes_summary_back(
    db: DbModel,
    session_id: Seq<char>,
    fold_turn_ids: Seq<Seq<char>>,
    visible_turn_ids: Seq<Seq<char>>,
    summary: Seq<char>,
    tokens: TurnTokensModel,
    estimated: bool,
    footprint_json: Option<Seq<char>>,
    turn_id: Seq<char>,
    now: Seq<char>,
)
    requires
        db.well_formed(),
        db.replace_visible_with_summary(
            session_id,
            fold_turn_ids,
            visible_turn_ids,
            summary,
            tokens,
            estimated,
            footprint_json,
            turn_id,
            now,
        ) is Ok,
        !any(db.turns, visible_running(session_id)),
        forall|id: Seq<char>| #[trigger]
            fold_turn_ids.contains(id) ==> visible_turn_ids.contains(id),
        db.folds_reversibly(session_id, fold_turn_ids),
    ensures
        db.visible_ids(session_id) == visible_turn_ids,
        db.replace_visible_with_summary(
            session_id,
            fold_turn_ids,
            visible_turn_ids,
            summary,
            tokens,
            estimated,
            footprint_json,
            turn_id,
            now,
        )->Ok_0.0.undo_last_turn(session_id) == (db, (1usize, None::<Seq<char>>)),
{
    let ids = united(fold_turn_ids, db.summary_ids(session_id));
    lemma_in_view(db, session_id, fold_turn_ids);
    lemma_childless(db, turn_id);
    let after = db.replace_visible_with_summary(
        session_id,
        fold_turn_ids,
        visible_turn_ids,
        summary,
        tokens,
        estimated,
        footprint_json,
        turn_id,
        now,
    )->Ok_0.0;
    let fold = visible_among(session_id, ids);
    let unfold = hidden_among(session_id, ids);
    let folded = change_where(db.turns, fold, set_hidden(true));
    let row = after.turns.last();
    assert(after.turns == folded.push(row));
    lemma_visible_end(db, session_id, ids, row);
    assert(after.last_visible(session_id) == Some(row));
    // Nothing runs, so the summary may go.
    if any(after.turns, visible_running(session_id)) {
        let i = choose|i: int|
            0 <= i < after.turns.len() && visible_running(session_id)(#[trigger] after.turns[i]);
        if i < db.turns.len() {
            assert(visible_running(session_id)(db.turns[i]));
        } else {
            reveal_strlit("completed");
            reveal_strlit("running");
            assert("completed"@.len() != "running"@.len());
        }
    }
    // What was hidden is found again.
    let k = choose|k: int| 0 <= k < db.turns.len() && fold(#[trigger] db.turns[k]);
    assert(unfold(after.turns[k]));
    let opened = change_where(after.turns, unfold, set_hidden(false));
    assert(opened =~= db.turns.push(row)) by {
        assert forall|i: int| 0 <= i < db.turns.len() implies #[trigger] opened[i] == db.turns[i] by {
            if unfold(db.turns[i]) {
                assert(any(db.turns, unfold));
            }
        }
    }
    // And the summary goes without a trace.
    let mine = with_turn_id(turn_id);
    lemma_filter_none(db.turns, mine);
    lemma_filter_push(db.turns, row, mine);
    lemma_filter_push(db.turns, row, not(mine));
    assert(Seq::<TurnRowModel>::empty().push(row).map_values(turn_id_of()) =~= seq![turn_id]);
    let bare = DbModel { turns: db.turns, ..after };
    assert(bare.without_children(seq![turn_id]) =~= db.without_children(seq![turn_id]));
}

/// Pruning a second time finds nothing left to prune.
pub proof fn law_prune_is_idempotent(
    db: DbModel,
    session_id: Seq<char>,
    protect_recent: usize,
    min_saved_chars: usize,
)
    ensures
        ({
            let once = db.prune_stale_tool_reports(session_id, protect_recent, min_saved_chars).0;
            once.prune_stale_tool_reports(session_id, protect_recent, min_saved_chars) == (
                once,
                (0nat, 0usize),
            )
        }),
{
    let once = db.prune_stale_tool_reports(session_id, protect_recent, min_saved_chars).0;
    let rows = db.prune_candidates(session_id, protect_recent);
    if !(rows.len() == 0 || prune_savings(rows) < min_saved_chars) {
        let p = turn_among(session_id, rows.map_values(turn_id_of()));
        let f = pruned();
        let plain = db.turns.filter(completed_plain(session_id));
        lemma_filter_change(db.turns, p, f, completed_plain(session_id));
        lemma_order_change(plain, by_seq(), p, f);
        let ordered = order_by(plain, by_seq());
        let n = if ordered.len() < protect_recent {
            0
        } else {
            (ordered.len() - protect_recent) as nat
        };
        lemma_limited_change(ordered, n, p, f);
        let old_rows = limited(ordered, n);
        let new_rows = change_where(old_rows, p, f);
        assert(change_where(ordered, p, f).len() == ordered.len());
        assert(once.prune_candidates(session_id, protect_recent) == new_rows.filter(prunable()));
        if any(new_rows, prunable()) {
            let i = choose|i: int| 0 <= i < new_rows.len() && prunable()(#[trigger] new_rows[i]);
            let r = old_rows[i];
            assert(!p(r));
            assert(old_rows.contains(r));
            lemma_filter_contains(old_rows, prunable(), r);
            let k = rows.index_of(r);
            assert(rows.map_values(turn_id_of())[k] == r.turn_id);
            assert(ordered[i] == r);
            assert(ordered.contains(r));
            lemma_order_contains(plain, by_seq(), r);
            lemma_filter_contains(db.turns, completed_plain(session_id), r);
        }
        lemma_filter_none(new_rows, prunable());
    }
}

/// A prune keeps the original of every tool report that it elides, and touches
/// nothing but tool reports.
pub proof fn law_prune_keeps_originals(
    db: DbModel,
    session_id: Seq<char>,
    protect_recent: usize,
    min_saved_chars: usize,
    i: int,
)
    requires
        0 <= i < db.turns.len(),
    ensures
        ({
            let after = db.prune_stale_tool_reports(session_id, protect_recent, min_saved_chars).0;
            let was = db.turns[i];
            let is = after.turns[i];
            &&& after.turns.len() == db.turns.len()
            &&& is == was || is.tool_reports_archive == Some(was.tool_reports)
            &&& is == (TurnRowModel {
                tool_reports: is.tool_reports,
                tool_reports_archive: is.tool_reports_archive,
                ..was
            })
        }),
{
}

/// Whether no turn is archived twice.
pub open spec fn archived_once(archive: Seq<EvictedRowModel>) -> bool {
    forall|i: int, j: int|
        0 <= i < j < archive.len() ==> (#[trigger] archive[i]).turn.source_id != (
        #[trigger] archive[j]).turn.source_id
}

/// Archiving keeps what is archived, puts every turn in, and puts none in twice.
pub proof fn law_archive_grows(
    archive: Seq<EvictedRowModel>,
    turns: Seq<EvictedTurnModel>,
    now: Seq<char>,
)
    ensures
        archive.is_prefix_of(archived(archive, turns, now)),
        archived_once(archive) ==> archived_once(archived(archive, turns, now)),
        forall|i: int|
            0 <= i < turns.len() ==> any(
                archived(archive, turns, now),
                evicted_from((#[trigger] turns[i]).source_id),
            ),
    decreases turns.len(),
{
    if turns.len() > 0 {
        let rest = turns.drop_last();
        let before = archived(archive, rest, now);
        let after = archived(archive, turns, now);
        law_archive_grows(archive, rest, now);
        let row = EvictedRowModel { turn: turns.last(), created_at: now };
        let known = any(before, evicted_from(turns.last().source_id));
        assert forall|i: int| 0 <= i < turns.len() implies any(
            after,
            evicted_from((#[trigger] turns[i]).source_id),
        ) by {
            let q = evicted_from(turns[i].source_id);
            lemma_any_push(before, row, q);
            if i < rest.len() {
                assert(rest[i] == turns[i]);
            }
        }
        if archived_once(archive) && !known {
            assert forall|i: int, j: int| 0 <= i < j < after.len() implies (
            #[trigger] after[i]).turn.source_id != (#[trigger] after[j]).turn.source_id by {
                if j == before.len() {
                    if after[i].turn.source_id == after[j].turn.source_id {
                        assert(evicted_from(turns.last().source_id)(before[i]));
                    }
                } else {
                    assert(before[i].turn.source_id != before[j].turn.source_id);
                }
            }
        }
    }
}

} // verus!
