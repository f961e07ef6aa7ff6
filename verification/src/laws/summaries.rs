//! Laws of what a summary keeps of the turns that it stands for.

use crate::facts::lemma_filter_contains;
use crate::laws::compact::lemma_largest_seq;
use crate::laws::reading::{lemma_last_of_session, lemma_listing};
use crate::state::cascade::turn_id_of;
use crate::state::compact::{united, visible_among};
use crate::state::db::DbModel;
use crate::state::error::StateErrorKind;
use crate::state::keys::lemma_unique_at;
use crate::state::rows::TurnRowModel;
use crate::state::sessions::by_seq;
use crate::state::turns::{turn_of, visible_summary, visible_turn};
use crate::state::types::TurnTokensModel;
use crate::table::order_by;
use crate::text::trimmed;
use vstd::prelude::*;

verus! {

/// A place behind every turn of a session.
proof fn lemma_next_place(db: DbModel, session_id: Seq<char>)
    requires
        db.next_seq(session_id) is Some,
    ensures
        forall|i: int|
            0 <= i < db.turns.len() && (#[trigger] db.turns[i]).session_id == session_id
                ==> db.turns[i].seq < db.next_seq(session_id)->0,
{
    assert forall|i: int| 0 <= i < db.turns.len() && (#[trigger] db.turns[i]).session_id
        == session_id implies db.turns[i].seq < db.next_seq(session_id)->0 by {
        assert(db.turns.contains(db.turns[i]));
        lemma_filter_contains(db.turns, turn_of(session_id), db.turns[i]);
        lemma_largest_seq(db.turns.filter(turn_of(session_id)), db.turns[i]);
    }
}

/// Whether a store has a new turn at its end that holds a summary of a session,
/// in view and behind every other turn of the session.
pub open spec fn ends_in_summary(
    after: DbModel,
    session_id: Seq<char>,
    summary: Seq<char>,
    tokens: TurnTokensModel,
    estimated: bool,
    turn_id: Seq<char>,
    now: Seq<char>,
) -> bool {
    let row = after.turns.last();
    &&& after.turns.len() > 0
    &&& row.turn_id == turn_id
    &&& row.session_id == session_id
    &&& row.is_summary
    &&& !row.hidden
    &&& row.assistant_content == summary
    &&& row.assistant_timestamp == Some(now)
    &&& row.user_timestamp == now
    &&& row.status == "completed"@
    &&& tokens.total <= i64::MAX ==> row.token_total == tokens.total
    &&& tokens.prompt <= i64::MAX ==> row.token_prompt == tokens.prompt
    &&& tokens.cache_read <= i64::MAX ==> row.token_cache_read == tokens.cache_read
    &&& row.token_usage_estimated == estimated
    &&& forall|i: int|
        0 <= i < after.turns.len() - 1 && (#[trigger] after.turns[i]).session_id == session_id
            ==> after.turns[i].seq < row.seq
    // Who asks for the last summary is given it.
    &&& after.last_summary(session_id) matches Some(found) && {
        &&& found.turn_id == turn_id
        &&& found.assistant_content == summary
        &&& found.is_summary
        &&& !found.hidden
        &&& found.seq == row.seq
    }
    // It is the last of the turns in view.
    &&& after.turns_where(visible_turn(session_id)).len() > 0
    &&& after.turns_where(visible_turn(session_id)).last().turn_id == turn_id
    &&& after.turns_where(visible_turn(session_id)).last().assistant_content == summary
}

proof fn lemma_ends_in_summary(
    after: DbModel,
    session_id: Seq<char>,
)
    requires
        after.turns.len() > 0,
        after.turns.last().session_id == session_id,
        after.turns.last().is_summary,
        !after.turns.last().hidden,
        forall|i: int|
            0 <= i < after.turns.len() - 1 && (#[trigger] after.turns[i]).session_id == session_id
                ==> after.turns[i].seq < after.turns.last().seq,
    ensures
        after.last_summary(session_id) matches Some(found) && {
            &&& found.turn_id == after.turns.last().turn_id
            &&& found.assistant_content == after.turns.last().assistant_content
            &&& found.is_summary
            &&& !found.hidden
            &&& found.seq == after.turns.last().seq
        },
        after.turns_where(visible_turn(session_id)).len() > 0,
        after.turns_where(visible_turn(session_id)).last().turn_id == after.turns.last().turn_id,
        after.turns_where(visible_turn(session_id)).last().assistant_content
            == after.turns.last().assistant_content,
{
    lemma_last_of_session(after, visible_summary(session_id), after.turns.len() - 1);
    lemma_last_of_session(after, visible_turn(session_id), after.turns.len() - 1);
}

/// A summary that was put into a conversation is the last turn in view and the
/// one that is given to who asks for the last summary, word for word. No other
/// turn changes.
pub proof fn law_summary_is_kept(
    db: DbModel,
    session_id: Seq<char>,
    summary: Seq<char>,
    tokens: TurnTokensModel,
    estimated: bool,
    turn_id: Seq<char>,
    now: Seq<char>,
)
    requires
        db.insert_summary_turn(session_id, summary, tokens, estimated, turn_id, now) is Ok,
    ensures
        ({
            let after = db.insert_summary_turn(
                session_id,
                summary,
                tokens,
                estimated,
                turn_id,
                now,
            )->Ok_0.0;
            &&& ends_in_summary(after, session_id, summary, tokens, estimated, turn_id, now)
            &&& after.turns.drop_last() == db.turns
        }),
{
    let after = db.insert_summary_turn(session_id, summary, tokens, estimated, turn_id, now)->Ok_0.0;
    lemma_next_place(db, session_id);
    assert(after.turns.drop_last() =~= db.turns);
    assert forall|i: int| 0 <= i < after.turns.len() - 1 && (#[trigger] after.turns[i]).session_id
        == session_id implies after.turns[i].seq < after.turns.last().seq by {
        assert(after.turns[i] == db.turns[i]);
    }
    lemma_ends_in_summary(after, session_id);
}

/// A summary can be put into any conversation whose places are not used up, under
/// an id that no turn has.
pub proof fn law_summary_can_be_kept(
    db: DbModel,
    session_id: Seq<char>,
    summary: Seq<char>,
    tokens: TurnTokensModel,
    estimated: bool,
    turn_id: Seq<char>,
    now: Seq<char>,
)
    requires
        forall|i: int|
            0 <= i < db.turns.len() ==> (#[trigger] db.turns[i]).turn_id != turn_id && (
            db.turns[i].session_id == session_id ==> db.turns[i].seq < i64::MAX),
    ensures
        db.insert_summary_turn(session_id, summary, tokens, estimated, turn_id, now) is Ok,
{
    lemma_place_left(db, session_id);
}

proof fn lemma_place_left(db: DbModel, session_id: Seq<char>)
    requires
        forall|i: int|
            0 <= i < db.turns.len() && (#[trigger] db.turns[i]).session_id == session_id
                ==> db.turns[i].seq < i64::MAX,
    ensures
        db.next_seq(session_id) is Some,
{
    let mine = db.turns.filter(turn_of(session_id));
    let ordered = order_by(mine, by_seq());
    lemma_listing(db.turns, turn_of(session_id), by_seq());
    if ordered.len() > 0 {
        let last = ordered.last();
        assert(ordered[ordered.len() - 1] == last);
        assert(ordered.contains(last));
        let i = db.turns.index_of(last);
        assert(db.turns[i] == last);
    }
}

proof fn lemma_united_contains(a: Seq<Seq<char>>, b: Seq<Seq<char>>, id: Seq<char>)
    ensures
        united(a, b).contains(id) == (a.contains(id) || b.contains(id)),
    decreases b.len(),
{
    if b.len() > 0 {
        let rest = united(a, b.drop_last());
        let all = united(a, b);
        lemma_united_contains(a, b.drop_last(), id);
        lemma_united_contains(a, b.drop_last(), b.last());
        assert(b[b.len() - 1] == b.last());
        if b.drop_last().contains(id) {
            assert(b[b.drop_last().index_of(id)] == id);
        }
        if b.contains(id) && id != b.last() {
            assert(b.drop_last()[b.index_of(id)] == id);
        }
        if !rest.contains(b.last()) {
            assert(all[rest.len() as int] == b.last());
            if rest.contains(id) {
                assert(all[rest.index_of(id)] == id);
            }
            if all.contains(id) && id != b.last() {
                assert(rest[all.index_of(id)] == id);
            }
        }
    }
}

/// Folding turns into a summary keeps the summary, word for word, as the last turn
/// in view and as the last summary. Out of view go the turns that were named and
/// the summaries before it; every other turn is as it was, and nothing is lost.
pub proof fn law_folded_turns_are_summed_up(
    db: DbModel,
    session_id: Seq<char>,
    fold_turn_ids: Seq<Seq<char>>,
    visible_turn_ids: Seq<Seq<char>>,
    summary: Seq<char>,
    tokens: TurnTokensModel,
    estimated: bool,
    footprint_json: Option<Seq<char>>,
    turn_id: Seq<char>,
    now: Seq<char>,
)
    requires
        db.well_formed(),
        db.replace_visible_with_summary(
            session_id,
            fold_turn_ids,
            visible_turn_ids,
            summary,
            tokens,
            estimated,
            footprint_json,
            turn_id,
            now,
        ) is Ok,
    ensures
        ({
            let after = db.replace_visible_with_summary(
                session_id,
                fold_turn_ids,
                visible_turn_ids,
                summary,
                tokens,
                estimated,
                footprint_json,
                turn_id,
                now,
            )->Ok_0.0;
            &&& ends_in_summary(after, session_id, summary, tokens, estimated, turn_id, now)
            &&& after.turns.last().tool_footprint == footprint_json
            &&& after.turns.len() == db.turns.len() + 1
            &&& forall|i: int|
                0 <= i < db.turns.len() ==> {
                    let was = db.turns[i];
                    let folded = was.session_id == session_id && !was.hidden && (was.is_summary
                        || fold_turn_ids.contains(was.turn_id));
                    #[trigger] after.turns[i] == TurnRowModel {
                        hidden: was.hidden || folded,
                        ..was
                    }
                }
            &&& trimmed(summary).len() > 0
            &&& after.queued_prompts == db.queued_prompts
            &&& after.sessions == db.sessions
            &&& after.loaded_items == db.loaded_items
        }),
{
    let after = db.replace_visible_with_summary(
        session_id,
        fold_turn_ids,
        visible_turn_ids,
        summary,
        tokens,
        estimated,
        footprint_json,
        turn_id,
        now,
    )->Ok_0.0;
    let summaries = db.turns.filter(visible_summary(session_id));
    let ids = united(fold_turn_ids, db.summary_ids(session_id));
    assert forall|i: int| 0 <= i < db.turns.len() implies {
        let was = db.turns[i];
        let folded = was.session_id == session_id && !was.hidden && (was.is_summary
            || fold_turn_ids.contains(was.turn_id));
        #[trigger] after.turns[i] == TurnRowModel { hidden: was.hidden || folded, ..was }
    } by {
        let was = db.turns[i];
        lemma_united_contains(fold_turn_ids, db.summary_ids(session_id), was.turn_id);
        if was.session_id == session_id && !was.hidden {
            assert(db.turns.contains(was));
            lemma_filter_contains(db.turns, visible_summary(session_id), was);
            if was.is_summary {
                let k = summaries.index_of(was);
                assert(db.summary_ids(session_id)[k] == was.turn_id);
            }
            if db.summary_ids(session_id).contains(was.turn_id) {
                let k = db.summary_ids(session_id).index_of(was.turn_id);
                assert(summaries.contains(summaries[k]));
                lemma_filter_contains(db.turns, visible_summary(session_id), summaries[k]);
                let j = db.turns.index_of(summaries[k]);
                lemma_unique_at(db.turns, turn_id_of(), i, j);
            }
        }
    }
    lemma_next_place(db, session_id);
    assert forall|i: int| 0 <= i < after.turns.len() - 1 && (#[trigger] after.turns[i]).session_id
        == session_id implies after.turns[i].seq < after.turns.last().seq by {
        assert(after.turns[i].seq == db.turns[i].seq);
    }
    lemma_ends_in_summary(after, session_id);
}

/// A conversation can be folded: where the summary says something, the turns in
/// view are those that it was made of, and one of those to fold is among them, it
/// is kept. Each thing that stands in the way is told apart.
pub proof fn law_conversation_can_be_folded(
    db: DbModel,
    session_id: Seq<char>,
    fold_turn_ids: Seq<Seq<char>>,
    visible_turn_ids: Seq<Seq<char>>,
    summary: Seq<char>,
    tokens: TurnTokensModel,
    estimated: bool,
    footprint_json: Option<Seq<char>>,
    turn_id: Seq<char>,
    now: Seq<char>,
)
    requires
        forall|i: int|
            0 <= i < db.turns.len() ==> (#[trigger] db.turns[i]).turn_id != turn_id && (
            db.turns[i].session_id == session_id ==> db.turns[i].seq < i64::MAX),
    ensures
        ({
            let done = db.replace_visible_with_summary(
                session_id,
                fold_turn_ids,
                visible_turn_ids,
                summary,
                tokens,
                estimated,
                footprint_json,
                turn_id,
                now,
            );
            let seen = db.turns_where(visible_turn(session_id));
            let unchanged = visible_turn_ids.len() == seen.len() && forall|k: int|
                0 <= k < seen.len() ==> visible_turn_ids[k] == (#[trigger] seen[k]).turn_id;
            let in_view = exists|i: int|
                0 <= i < db.turns.len() && (#[trigger] db.turns[i]).session_id == session_id
                    && !db.turns[i].hidden && fold_turn_ids.contains(db.turns[i].turn_id);
            &&& trimmed(summary).len() == 0 ==> (done matches Err(error) && error.kind
                == StateErrorKind::EmptySummary)
            &&& trimmed(summary).len() > 0 && fold_turn_ids.len() == 0 ==> (done matches Err(error)
                && error.kind == StateErrorKind::NothingToFold)
            &&& trimmed(summary).len() > 0 && fold_turn_ids.len() > 0 && !unchanged ==> (
            done matches Err(error) && error.kind == StateErrorKind::CompactConversationChanged)
            &&& trimmed(summary).len() > 0 && unchanged && in_view ==> done is Ok
        }),
{
    lemma_place_left(db, session_id);
    let seen = db.turns_where(visible_turn(session_id));
    let ids = db.visible_ids(session_id);
    let unchanged = visible_turn_ids.len() == seen.len() && forall|k: int|
        0 <= k < seen.len() ==> visible_turn_ids[k] == (#[trigger] seen[k]).turn_id;
    if unchanged {
        assert forall|k: int| 0 <= k < ids.len() implies #[trigger] ids[k] == visible_turn_ids[k] by {
            assert(seen[k].turn_id == ids[k]);
        }
        assert(ids =~= visible_turn_ids);
    } else if ids == visible_turn_ids {
        assert forall|k: int| 0 <= k < seen.len() implies visible_turn_ids[k] == (
        #[trigger] seen[k]).turn_id by {
            assert(ids[k] == seen[k].turn_id);
        }
    }
    let all = united(fold_turn_ids, db.summary_ids(session_id));
    if exists|i: int|
        0 <= i < db.turns.len() && (#[trigger] db.turns[i]).session_id == session_id
            && !db.turns[i].hidden && fold_turn_ids.contains(db.turns[i].turn_id) {
        let i = choose|i: int|
            0 <= i < db.turns.len() && (#[trigger] db.turns[i]).session_id == session_id
                && !db.turns[i].hidden && fold_turn_ids.contains(db.turns[i].turn_id);
        lemma_united_contains(
            fold_turn_ids,
            db.summary_ids(session_id),
            db.turns[i].turn_id,
        );
        assert(visible_among(session_id, all)(db.turns[i]));
        assert(fold_turn_ids.len() > 0);
    }
}

} // verus!
