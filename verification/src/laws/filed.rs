//! Laws of what is kept beside a conversation and read again: pictures and files,
//! reports of jobs in the background, prompts of a turn, and tool reports that were
//! folded.

use crate::facts::{lemma_filter_contains, lemma_first, lemma_order_contains, lemma_order_filter};
use crate::json::strings_or_none;
use crate::laws::eviction::{completed_turns, latest, lemma_completed};
use crate::laws::reading::lemma_listing;
use crate::state::cascade::turn_id_of;
use crate::state::compact::{
    prunable, prune_saving, prune_savings, total_bytes, turn_among, MIN_PRUNE_BYTES,
};
use crate::state::db::DbModel;
use crate::state::edits::{
    artifact_in, artifact_of, artifact_with_id, image_in, image_of, image_with_id,
    set_context_messages, set_tool_flow,
};
use crate::state::queue::{by_prompt_seq, prompt_id_of};
use crate::state::redo::{consumed_in, prompt_among};
use crate::state::rows::{QueuedPromptRowModel, TurnRowModel};
use crate::state::salvage::turn_in;
use crate::state::sessions::by_seq;
use crate::state::turns::{is_job_wake, wake_reply, wake_turn_after};
use crate::state::types::{
    ArtifactAssetModel, ChatMessageModel, ImageAssetModel, ToolFlowRoundModel,
};
use crate::table::{any, first, lemma_order_by_len, limited, order_by, orders};
use vstd::prelude::*;

verus! {

/// Whether a turn belongs to a session.
pub open spec fn belongs(turns: Seq<TurnRowModel>, turn_id: Seq<char>, session_id: Seq<char>) -> bool {
    exists|i: int|
        0 <= i < turns.len() && (#[trigger] turns[i]).turn_id == turn_id && turns[i].session_id
            == session_id
}

/// What the store knows of a turn and its session.
pub proof fn lemma_belongs(turns: Seq<TurnRowModel>, turn_id: Seq<char>, session_id: Seq<char>)
    ensures
        any(turns, turn_in(session_id, turn_id)) == belongs(turns, turn_id, session_id),
{
    let p = turn_in(session_id, turn_id);
    if belongs(turns, turn_id, session_id) {
        let i = choose|i: int|
            0 <= i < turns.len() && (#[trigger] turns[i]).turn_id == turn_id
                && turns[i].session_id == session_id;
        assert(p(turns[i]));
    }
    if any(turns, p) {
        let i = choose|i: int| 0 <= i < turns.len() && p(#[trigger] turns[i]);
        assert(turns[i].turn_id == turn_id);
    }
}

/// The pictures of a session are those that its turns have.
pub proof fn law_pictures_of_a_session_are_listed(
    db: DbModel,
    session_id: Seq<char>,
    asset: ImageAssetModel,
)
    ensures
        db.images_of(session_id).contains(asset) <==> belongs(db.turns, asset.turn_id, session_id)
            && exists|i: int| 0 <= i < db.images.len() && (#[trigger] db.images[i]).asset == asset,
{
    let p = image_in(db.turns, session_id);
    let kept = db.images.filter(p);
    lemma_belongs(db.turns, asset.turn_id, session_id);
    if db.images_of(session_id).contains(asset) {
        let k = db.images_of(session_id).index_of(asset);
        assert(image_of()(kept[k]) == asset);
        assert(kept.contains(kept[k]));
        lemma_filter_contains(db.images, p, kept[k]);
        let i = db.images.index_of(kept[k]);
        assert(db.images[i].asset == asset);
    }
    if belongs(db.turns, asset.turn_id, session_id) && exists|i: int|
        0 <= i < db.images.len() && (#[trigger] db.images[i]).asset == asset {
        let i = choose|i: int| 0 <= i < db.images.len() && (#[trigger] db.images[i]).asset == asset;
        assert(db.images.contains(db.images[i]));
        lemma_filter_contains(db.images, p, db.images[i]);
        let k = kept.index_of(db.images[i]);
        assert(db.images_of(session_id)[k] == asset);
    }
}

/// The files of a session are those that its turns made.
pub proof fn law_files_of_a_session_are_listed(
    db: DbModel,
    session_id: Seq<char>,
    asset: ArtifactAssetModel,
)
    ensures
        db.artifacts_of(session_id).contains(asset) <==> belongs(
            db.turns,
            asset.turn_id,
            session_id,
        ) && exists|i: int|
            0 <= i < db.artifacts.len() && (#[trigger] db.artifacts[i]).asset == asset,
{
    let p = artifact_in(db.turns, session_id);
    let kept = db.artifacts.filter(p);
    lemma_belongs(db.turns, asset.turn_id, session_id);
    if db.artifacts_of(session_id).contains(asset) {
        let k = db.artifacts_of(session_id).index_of(asset);
        assert(artifact_of()(kept[k]) == asset);
        assert(kept.contains(kept[k]));
        lemma_filter_contains(db.artifacts, p, kept[k]);
        let i = db.artifacts.index_of(kept[k]);
        assert(db.artifacts[i].asset == asset);
    }
    if belongs(db.turns, asset.turn_id, session_id) && exists|i: int|
        0 <= i < db.artifacts.len() && (#[trigger] db.artifacts[i]).asset == asset {
        let i = choose|i: int|
            0 <= i < db.artifacts.len() && (#[trigger] db.artifacts[i]).asset == asset;
        assert(db.artifacts.contains(db.artifacts[i]));
        lemma_filter_contains(db.artifacts, p, db.artifacts[i]);
        let k = kept.index_of(db.artifacts[i]);
        assert(db.artifacts_of(session_id)[k] == asset);
    }
}

/// A picture, or a file, is found by its id wherever there is one with it.
pub proof fn law_asset_is_found_by_its_id(db: DbModel, asset_id: Seq<char>, i: int)
    ensures
        0 <= i < db.images.len() && db.images[i].asset.asset_id == asset_id ==> (first(
            db.images,
            image_with_id(asset_id),
        ) matches Some(found) && found.asset.asset_id == asset_id && db.images.contains(found)),
        0 <= i < db.artifacts.len() && db.artifacts[i].asset.asset_id == asset_id ==> (first(
            db.artifacts,
            artifact_with_id(asset_id),
        ) matches Some(found) && found.asset.asset_id == asset_id && db.artifacts.contains(found)),
{
    lemma_first(db.images, image_with_id(asset_id));
    lemma_first(db.artifacts, artifact_with_id(asset_id));
    if 0 <= i < db.images.len() && db.images[i].asset.asset_id == asset_id {
        assert(image_with_id(asset_id)(db.images[i]));
    }
    if 0 <= i < db.artifacts.len() && db.artifacts[i].asset.asset_id == asset_id {
        assert(artifact_with_id(asset_id)(db.artifacts[i]));
    }
}

/// The rounds of tools of a turn, and what was sent behind its prompt, are kept with
/// it, and with no other turn; nothing else changes.
pub proof fn law_rounds_are_kept_with_their_turn(
    db: DbModel,
    turn_id: Seq<char>,
    flow: Seq<ToolFlowRoundModel>,
    messages: Seq<ChatMessageModel>,
    i: int,
)
    requires
        0 <= i < db.turns.len(),
    ensures
        ({
            let after = db.with_turn_changed(turn_id, set_tool_flow(flow));
            let row = db.turns[i];
            &&& after.turns.len() == db.turns.len()
            &&& row.turn_id == turn_id ==> after.turns[i] == (TurnRowModel {
                tool_flow: flow,
                ..row
            })
            &&& row.turn_id != turn_id ==> after.turns[i] == row
            &&& after == (DbModel { turns: after.turns, ..db })
        }),
        ({
            let after = db.with_turn_changed(turn_id, set_context_messages(messages));
            let row = db.turns[i];
            &&& after.turns.len() == db.turns.len()
            &&& row.turn_id == turn_id ==> after.turns[i] == (TurnRowModel {
                context_messages: messages,
                ..row
            })
            &&& row.turn_id != turn_id ==> after.turns[i] == row
            &&& after == (DbModel { turns: after.turns, ..db })
        }),
{
}

/// The prompts of a batch that are read for a redo are the ones that were asked for,
/// in that order, each one that the turn took up; where one is not, none is read.
pub proof fn law_batch_is_the_one_asked_for(
    db: DbModel,
    session_id: Seq<char>,
    turn_id: Seq<char>,
    prompt_ids: Seq<Seq<char>>,
    k: int,
)
    requires
        0 <= k < prompt_ids.len(),
    ensures
        db.load_redo_batch_prompts(session_id, turn_id, prompt_ids) matches Ok(prompts) ==> {
            &&& prompts.len() == prompt_ids.len()
            &&& prompts[k].prompt_id == prompt_ids[k]
            &&& exists|i: int|
                0 <= i < db.queued_prompts.len() && (#[trigger] db.queued_prompts[i]).prompt_id
                    == prompt_ids[k] && db.queued_prompts[i].session_id == session_id
                    && db.queued_prompts[i].turn_id == Some(turn_id)
                    && db.queued_prompts[i].status == "consumed"@
                    && db.queued_prompts[i].display_content == prompts[k].display_content
        },
{
    let p = consumed_in(session_id, turn_id);
    let q = prompt_among(prompt_ids);
    let taken = db.queued_prompts.filter(p);
    let ordered = order_by(taken, by_prompt_seq());
    let rows = db.redo_batch(session_id, turn_id, prompt_ids);
    if let Ok(prompts) = db.load_redo_batch_prompts(session_id, turn_id, prompt_ids) {
        let ids = rows.map_values(prompt_id_of());
        assert(ids[k] == prompt_ids[k]);
        assert(rows.contains(rows[k]));
        lemma_filter_contains(ordered, q, rows[k]);
        lemma_order_contains(taken, by_prompt_seq(), rows[k]);
        lemma_filter_contains(db.queued_prompts, p, rows[k]);
        let i = db.queued_prompts.index_of(rows[k]);
        assert(db.queued_prompts[i] == rows[k]);
        assert(prompts[k] == db.as_prompt()(rows[k]));
    }
}

/// A single prompt that a turn took up is read for a redo.
pub proof fn law_taken_prompt_is_read_for_a_redo(
    db: DbModel,
    session_id: Seq<char>,
    turn_id: Seq<char>,
    i: int,
)
    requires
        0 <= i < db.queued_prompts.len(),
        db.queued_prompts[i].session_id == session_id,
        db.queued_prompts[i].turn_id == Some(turn_id),
        db.queued_prompts[i].status == "consumed"@,
        forall|j: int|
            0 <= j < db.queued_prompts.len() && j != i ==> (
            #[trigger] db.queued_prompts[j]).prompt_id != db.queued_prompts[i].prompt_id,
    ensures
        ({
            let row = db.queued_prompts[i];
            &&& db.load_redo_batch_prompts(
                session_id,
                turn_id,
                seq![row.prompt_id],
            ) matches Ok(prompts)
            &&& prompts.len() == 1
            &&& prompts[0].prompt_id == row.prompt_id
            &&& prompts[0].display_content == row.display_content
            &&& row.context_content matches Some(text) ==> prompts[0].content == text
            &&& row.context_content is None ==> prompts[0].content == row.content
        }),
{
    let row = db.queued_prompts[i];
    let ids = seq![row.prompt_id];
    let p = consumed_in(session_id, turn_id);
    let q = prompt_among(ids);
    let lt = by_prompt_seq();
    let r = |v: QueuedPromptRowModel| v == row;
    assert(ids[0] == row.prompt_id);
    assert forall|j: int| 0 <= j < db.queued_prompts.len() implies (p(
        #[trigger] db.queued_prompts[j],
    ) && q(db.queued_prompts[j])) == (j == i) by {
        if q(db.queued_prompts[j]) {
            let n = ids.index_of(db.queued_prompts[j].prompt_id);
            assert(ids[n] == db.queued_prompts[j].prompt_id);
        }
    }
    let taken = db.queued_prompts.filter(p);
    lemma_order_filter(taken, lt, q);
    lemma_both(db.queued_prompts, p, q, i);
    let rows = db.redo_batch(session_id, turn_id, ids);
    assert(rows == order_by(seq![row], lt));
    assert(seq![row].drop_last() =~= Seq::<QueuedPromptRowModel>::empty());
    lemma_order_by_len(seq![row], lt);
    lemma_order_contains(seq![row], lt, row);
    assert(seq![row].contains(seq![row][0]));
    let n = rows.index_of(row);
    assert(rows[0] == row);
    assert(rows.map_values(prompt_id_of()) =~= ids);
}

/// Where one row alone satisfies both, it alone is left.
proof fn lemma_both(
    s: Seq<QueuedPromptRowModel>,
    p: spec_fn(QueuedPromptRowModel) -> bool,
    q: spec_fn(QueuedPromptRowModel) -> bool,
    i: int,
)
    requires
        0 <= i < s.len(),
        forall|j: int| 0 <= j < s.len() ==> (p(#[trigger] s[j]) && q(s[j])) == (j == i),
    ensures
        s.filter(p).filter(q) == seq![s[i]],
    decreases s.len(),
{
    reveal(Seq::filter);
    let rest = s.drop_last();
    assert(s =~= rest.push(s.last()));
    assert((p(s[s.len() - 1]) && q(s[s.len() - 1])) == (s.len() - 1 == i));
    if i < s.len() - 1 {
        assert forall|j: int| 0 <= j < rest.len() implies (p(#[trigger] rest[j]) && q(rest[j]))
            == (j == i) by {
            assert(rest[j] == s[j]);
        }
        lemma_both(rest, p, q, i);
        if p(s.last()) {
            assert(s.filter(p) =~= rest.filter(p).push(s.last()));
            assert(s.filter(p).drop_last() =~= rest.filter(p));
        }
    } else {
        lemma_neither(rest, p, q);
        assert(s.filter(p) =~= rest.filter(p).push(s.last()));
        assert(s.filter(p).drop_last() =~= rest.filter(p));
        assert(s.filter(p).filter(q) =~= seq![s[i]]);
    }
}

proof fn lemma_neither(
    s: Seq<QueuedPromptRowModel>,
    p: spec_fn(QueuedPromptRowModel) -> bool,
    q: spec_fn(QueuedPromptRowModel) -> bool,
)
    requires
        forall|j: int| 0 <= j < s.len() ==> !(p(#[trigger] s[j]) && q(s[j])),
    ensures
        s.filter(p).filter(q).len() == 0,
{
    let left = s.filter(p).filter(q);
    if left.len() > 0 {
        assert(left.contains(left[0]));
        lemma_filter_contains(s.filter(p), q, left[0]);
        lemma_filter_contains(s, p, left[0]);
        let j = s.index_of(left[0]);
        assert(s[j] == left[0]);
    }
}

/// Whether a turn answered a report on a job in the background, and is settled.
pub open spec fn reports_later(row: TurnRowModel, session_id: Seq<char>, after: i64) -> bool {
    &&& row.session_id == session_id
    &&& row.seq > after
    &&& row.status == "completed"@ || row.status == "failed"@ || row.status == "interrupted"@
    &&& is_job_wake(row.user_content)
}

/// The answers to reports on jobs in the background are told in their order, each with
/// what was answered; where there are no more than are told at once, all are.
pub proof fn law_reports_are_told(db: DbModel, session_id: Seq<char>, after: i64, i: int)
    ensures
        ({
            let told = db.background_report_replies_after(session_id, after);
            &&& told.len() <= 8
            &&& forall|k: int|
                0 <= k < told.len() ==> exists|j: int|
                    0 <= j < db.turns.len() && reports_later(
                        #[trigger] db.turns[j],
                        session_id,
                        after,
                    ) && db.turns[j].seq == (#[trigger] told[k]).0 && db.turns[j].turn_id
                        == told[k].1 && db.turns[j].display_content == told[k].2 && (
                    db.turns[j].status == "completed"@ ==> told[k].3
                        == db.turns[j].assistant_content)
            &&& forall|a: int, b: int|
                0 <= a < b < told.len() ==> (#[trigger] told[a]).0 <= (#[trigger] told[b]).0
            &&& 0 <= i < db.turns.len() && reports_later(db.turns[i], session_id, after) ==> told.len()
                == 8 && told[7].0 <= db.turns[i].seq || exists|k: int|
                0 <= k < told.len() && (#[trigger] told[k]).1 == db.turns[i].turn_id
        }),
{
    let p = wake_turn_after(session_id, after);
    let lt = by_seq();
    assert(orders(lt));
    lemma_listing(db.turns, p, lt);
    let rows = order_by(db.turns.filter(p), lt);
    let told = db.background_report_replies_after(session_id, after);
    assert forall|k: int| 0 <= k < told.len() implies exists|j: int|
        0 <= j < db.turns.len() && reports_later(#[trigger] db.turns[j], session_id, after)
            && db.turns[j].seq == (#[trigger] told[k]).0 && db.turns[j].turn_id == told[k].1
            && db.turns[j].display_content == told[k].2 && (db.turns[j].status == "completed"@
            ==> told[k].3 == db.turns[j].assistant_content) by {
        assert(told[k] == wake_reply()(rows[k]));
        assert(rows.contains(rows[k]));
        let j = db.turns.index_of(rows[k]);
        assert(db.turns[j] == rows[k]);
        assert(reports_later(db.turns[j], session_id, after));
    }
    assert forall|a: int, b: int| 0 <= a < b < told.len() implies (#[trigger] told[a]).0 <= (
    #[trigger] told[b]).0 by {
        assert(told[a] == wake_reply()(rows[a]));
        assert(told[b] == wake_reply()(rows[b]));
        assert(!lt(rows[b], rows[a]));
    }
    if 0 <= i < db.turns.len() && reports_later(db.turns[i], session_id, after) {
        assert(db.turns.contains(db.turns[i]));
        assert(rows.contains(db.turns[i]));
        let k = rows.index_of(db.turns[i]);
        if k < told.len() {
            assert(told[k] == wake_reply()(rows[k]));
        } else {
            assert(told[7] == wake_reply()(rows[7]));
            assert(!lt(rows[k], rows[7]));
        }
    }
}

/// Whether folding the tool reports of a turn is worth it: they were not folded
/// before, and are long enough.
pub open spec fn worth_folding(row: TurnRowModel) -> bool {
    &&& row.tool_reports_archive is None
    &&& strings_or_none(row.tool_reports).len() > 0
    &&& total_bytes(strings_or_none(row.tool_reports)) >= MIN_PRUNE_BYTES
}

proof fn lemma_savings(rows: Seq<TurnRowModel>, k: int)
    requires
        0 <= k < rows.len(),
    ensures
        prune_savings(rows) >= prune_saving(rows[k]),
    decreases rows.len(),
{
    if k < rows.len() - 1 {
        lemma_savings(rows.drop_last(), k);
    }
}

/// The reports of every turn that is done, is not one of the latest, and is worth it
/// are folded, with the original beside them, as soon as folding saves enough.
pub proof fn law_old_reports_are_folded(
    db: DbModel,
    session_id: Seq<char>,
    protect_recent: usize,
    min_saved_chars: usize,
    i: int,
)
    requires
        0 <= i < db.turns.len(),
        db.turns[i].session_id == session_id,
        db.turns[i].status == "completed"@,
        !db.turns[i].hidden,
        !db.turns[i].is_summary,
        !latest(completed_turns(db, session_id), protect_recent).contains(db.turns[i]),
        worth_folding(db.turns[i]),
    ensures
        ({
            let (after, (turns, saved)) = db.prune_stale_tool_reports(
                session_id,
                protect_recent,
                min_saved_chars,
            );
            &&& prune_saving(db.turns[i]) >= min_saved_chars ==> turns > 0
            &&& turns > 0 ==> saved >= prune_saving(db.turns[i]) && after.turns[i].tool_reports_archive
                == Some(db.turns[i].tool_reports)
        }),
{
    let row = db.turns[i];
    let rows = completed_turns(db, session_id);
    assert(db.turns.contains(row));
    lemma_completed(db, session_id, row);
    let candidates = db.prune_candidates(session_id, protect_recent);
    let k = rows.index_of(row);
    assert(rows[k] == row);
    let old_ones = limited(
        rows,
        if rows.len() < protect_recent {
            0
        } else {
            (rows.len() - protect_recent) as nat
        },
    );
    assert(old_ones.contains(row)) by {
        let safe = latest(rows, protect_recent);
        if rows.len() < protect_recent || k >= rows.len() - protect_recent {
            let from = if rows.len() < protect_recent {
                0int
            } else {
                rows.len() - protect_recent
            };
            assert(safe[k - from] == row);
        } else {
            assert(old_ones[k] == row);
        }
    }
    lemma_filter_contains(old_ones, prunable(), row);
    let n = candidates.index_of(row);
    assert(candidates[n] == row);
    lemma_savings(candidates, n);
    let ids = candidates.map_values(turn_id_of());
    assert(ids[n] == row.turn_id);
    assert(turn_among(session_id, ids)(row));
}

} // verus!
