//! Laws of the journal of a turn and of how it is closed and read, of bindings that
//! are renewed, and of summaries without a list of their own.

use crate::facts::lemma_filter_contains;
use crate::laws::reading::lemma_listing;
use crate::state::compact::{hidden_since, set_hidden, visible_running};
use crate::state::db::DbModel;
use crate::state::error::StateErrorModel;
use crate::state::journal::by_event_id;
use crate::state::platform::of_key;
use crate::state::redo::with_turn_id;
use crate::state::rows::{
    BindingRowModel, JournalEventRowModel, JournalSegmentRowModel, TurnRowModel,
};
use crate::state::turns::{as_event, holds, holds_in_force, result_for};
use crate::state::types::PlatformSessionBindingKeyModel;
use crate::table::{any, change_where, not, order_by, orders};
use vstd::prelude::*;

verus! {

/// Whether an event was told in a segment that counts.
pub open spec fn in_force(db: DbModel, e: JournalEventRowModel) -> bool {
    exists|i: int|
        0 <= i < db.segments.len() && (#[trigger] db.segments[i]).turn_id == e.turn_id
            && db.segments[i].revision == e.event.revision && db.segments[i].segment_index
            == e.event.segment_index && db.segments[i].status != "superseded"@
}

/// Whether an event was told in a segment at all.
pub open spec fn was_told(db: DbModel, e: JournalEventRowModel) -> bool {
    exists|i: int|
        0 <= i < db.segments.len() && (#[trigger] db.segments[i]).turn_id == e.turn_id
            && db.segments[i].revision == e.event.revision && db.segments[i].segment_index
            == e.event.segment_index
}

/// Whether the call that an event is about came to an end.
pub open spec fn came_to_an_end(db: DbModel, e: JournalEventRowModel) -> bool {
    exists|i: int|
        0 <= i < db.events.len() && (#[trigger] db.events[i]).turn_id == e.turn_id
            && db.events[i].event.revision == e.event.revision && db.events[i].event.segment_index
            == e.event.segment_index && db.events[i].event.kind == "tool_result"@
            && db.events[i].event.call_id is Some && db.events[i].event.call_id == e.event.call_id
}

/// Whether an event is about a tool.
pub open spec fn concerns_a_tool(e: JournalEventRowModel) -> bool {
    let kind = e.event.kind;
    kind == "tool_call"@ || kind == "tool_result"@ || kind == "tool_progress"@ || kind
        == "command_stdout"@ || kind == "command_stderr"@ || kind == "image"@ || kind
        == "artifact"@
}

proof fn lemma_told(db: DbModel, e: JournalEventRowModel)
    ensures
        any(db.segments, holds_in_force(e)) == in_force(db, e),
        any(db.segments, holds(e)) == was_told(db, e),
        any(db.events, result_for(e)) == came_to_an_end(db, e),
{
    let p = holds_in_force(e);
    let q = holds(e);
    let r = result_for(e);
    if in_force(db, e) {
        let i = choose|i: int|
            0 <= i < db.segments.len() && (#[trigger] db.segments[i]).turn_id == e.turn_id
                && db.segments[i].revision == e.event.revision && db.segments[i].segment_index
                == e.event.segment_index && db.segments[i].status != "superseded"@;
        assert(p(db.segments[i]));
    }
    if any(db.segments, p) {
        let i = choose|i: int| 0 <= i < db.segments.len() && p(#[trigger] db.segments[i]);
        assert(db.segments[i].turn_id == e.turn_id);
    }
    if was_told(db, e) {
        let i = choose|i: int|
            0 <= i < db.segments.len() && (#[trigger] db.segments[i]).turn_id == e.turn_id
                && db.segments[i].revision == e.event.revision && db.segments[i].segment_index
                == e.event.segment_index;
        assert(q(db.segments[i]));
    }
    if any(db.segments, q) {
        let i = choose|i: int| 0 <= i < db.segments.len() && q(#[trigger] db.segments[i]);
        assert(db.segments[i].turn_id == e.turn_id);
    }
    if came_to_an_end(db, e) {
        let i = choose|i: int|
            0 <= i < db.events.len() && (#[trigger] db.events[i]).turn_id == e.turn_id
                && db.events[i].event.revision == e.event.revision
                && db.events[i].event.segment_index == e.event.segment_index
                && db.events[i].event.kind == "tool_result"@ && db.events[i].event.call_id is Some
                && db.events[i].event.call_id == e.event.call_id;
        assert(r(db.events[i]));
    }
    if any(db.events, r) {
        let i = choose|i: int| 0 <= i < db.events.len() && r(#[trigger] db.events[i]);
        assert(db.events[i].turn_id == e.turn_id);
    }
}

/// The journal of a turn that is not completed is read in its order: all that was told
/// in the segments that count, and of those that were given up what is about tools
/// whose calls came to an end. A completed turn is read without its journal.
pub proof fn law_journal_is_read(db: DbModel, row: TurnRowModel, e: JournalEventRowModel)
    ensures
        row.status == "completed"@ ==> db.full_turn()(row).journal_events.len() == 0,
        row.status != "completed"@ ==> ({
            let shown = order_by(
                db.events.filter(db.shown_event(row.turn_id, row.revision)),
                by_event_id(),
            );
            let told = db.full_turn()(row).journal_events;
            &&& told.len() == shown.len()
            &&& forall|k: int| 0 <= k < told.len() ==> #[trigger] told[k] == shown[k].event
            &&& shown.contains(e) <==> db.events.contains(e) && e.turn_id == row.turn_id
                && e.event.revision == row.revision && (in_force(db, e) || was_told(db, e)
                && concerns_a_tool(e) && came_to_an_end(db, e))
            &&& forall|a: int, b: int|
                0 <= a < b < told.len() ==> (#[trigger] told[a]).event_id <= (
                #[trigger] told[b]).event_id
        }),
{
    let p = db.shown_event(row.turn_id, row.revision);
    let lt = by_event_id();
    assert(orders(lt));
    lemma_listing(db.events, p, lt);
    lemma_told(db, e);
    let shown = order_by(db.events.filter(p), lt);
    let told = shown.map_values(as_event());
    assert forall|a: int, b: int| 0 <= a < b < told.len() implies (#[trigger] told[a]).event_id
        <= (#[trigger] told[b]).event_id by {
        assert(!lt(shown[b], shown[a]));
    }
}

/// Where prompts that waited join a turn that is gone, a segment of its journal is left
/// as it is or is closed at that time.
proof fn lemma_segments_joined(
    db: DbModel,
    turn_id: Seq<char>,
    revision: i64,
    queue: Option<Seq<char>>,
    now: Seq<char>,
    k: int,
)
    requires
        0 <= k < db.segments.len(),
    ensures
        db.stale_prompts_consumed(turn_id, revision, queue, now) matches Ok(after) ==> {
            &&& after.segments.len() >= db.segments.len()
            &&& after.segments[k] == db.segments[k] || after.segments[k] == (
            JournalSegmentRowModel {
                status: "completed"@,
                finished_at: Some(now),
                ..db.segments[k]
            })
        },
{
}

/// When a turn is cut off, its journal is closed: no segment of it is running any more,
/// and one that was has the time at which it ended; the journals of other turns stay.
pub proof fn law_cut_off_journal_is_closed(
    db: DbModel,
    turn: TurnRowModel,
    now: Seq<char>,
    after: DbModel,
    k: int,
)
    requires
        db.turn_cut_off(turn, now) == Ok::<(DbModel, bool), StateErrorModel>((after, true)),
        0 <= k < db.segments.len(),
    ensures
        ({
            let was = db.segments[k];
            let row = after.segments[k];
            let own = was.turn_id == turn.turn_id && was.revision == turn.revision;
            &&& after.segments.len() >= db.segments.len()
            &&& row.turn_id == was.turn_id && row.revision == was.revision && row.segment_index
                == was.segment_index && row.started_at == was.started_at
            &&& own && was.status == "running"@ ==> row.status != "running"@ && row.finished_at
                == Some(now)
        }),
{
    reveal_strlit("running");
    reveal_strlit("completed");
    reveal_strlit("interrupted");
    assert("running"@[0] == 'r');
    assert("completed"@[0] == 'c');
    assert("interrupted"@[0] == 'i');
    lemma_segments_joined(db, turn.turn_id, turn.revision, turn.queue_session_id, now, k);
}

/// A conversation that is bound again goes on with the new session, from that time on
/// and as old as before; one that was not bound is bound from that time on. No other
/// binding changes.
pub proof fn law_binding_is_renewed(
    db: DbModel,
    key: PlatformSessionBindingKeyModel,
    session_id: Seq<char>,
    now: Seq<char>,
    i: int,
)
    requires
        db.bind_platform_session(key, session_id, now) is Ok,
    ensures
        ({
            let after = db.bind_platform_session(key, session_id, now)->Ok_0.0.bindings;
            let bound = any(db.bindings, of_key(key));
            &&& 0 <= i < db.bindings.len() ==> (of_key(key)(db.bindings[i]) <==> {
                let row = db.bindings[i];
                &&& row.platform == key.platform
                &&& row.account_id == key.account_id
                &&& row.conversation_kind == key.conversation_kind
                &&& row.conversation_id == key.conversation_id
                &&& row.persona == key.persona
                &&& key.participant_id matches Some(id) ==> row.participant_id == id
                &&& key.participant_id is None ==> row.participant_id.len() == 0
            })
            &&& 0 <= i < db.bindings.len() && of_key(key)(db.bindings[i]) ==> after[i] == (
            BindingRowModel { session_id, updated_at: now, ..db.bindings[i] })
            &&& 0 <= i < db.bindings.len() && !of_key(key)(db.bindings[i]) ==> after[i]
                == db.bindings[i]
            &&& bound ==> after.len() == db.bindings.len()
            &&& !bound ==> {
                &&& after.len() == db.bindings.len() + 1
                &&& after.last().platform == key.platform
                &&& after.last().account_id == key.account_id
                &&& after.last().conversation_kind == key.conversation_kind
                &&& after.last().conversation_id == key.conversation_id
                &&& after.last().persona == key.persona
                &&& after.last().session_id == session_id
                &&& after.last().created_at == now
                &&& after.last().updated_at == now
            }
        }),
{
    if 0 <= i < db.bindings.len() {
        if of_key(key)(db.bindings[i]) {
            assert(any(db.bindings, of_key(key)));
        }
        if db.bindings[i].participant_id.len() == 0 {
            assert(db.bindings[i].participant_id =~= Seq::<char>::empty());
        }
    }
}

/// Whether a turn was folded into a summary that stands at `seq` and follows the one at
/// `parent`: it is that summary, or no summary and stands behind it.
pub open spec fn folded_since(
    row: TurnRowModel,
    session_id: Seq<char>,
    parent: Option<i64>,
    seq: i64,
) -> bool {
    &&& row.session_id == session_id
    &&& row.hidden
    &&& row.seq < seq
    &&& parent matches Some(place) ==> row.seq == place || !row.is_summary && row.seq > place
    &&& parent is None ==> !row.is_summary
}

/// Undoing a summary that has no list of what it folded shows again the summary before
/// it and the turns since; the others stay as they are.
pub proof fn law_old_summary_is_undone(
    db: DbModel,
    session_id: Seq<char>,
    summary: TurnRowModel,
    i: int,
    k: int,
)
    requires
        db.last_visible(session_id) == Some(summary),
        summary.is_summary,
        summary.compact_reversible,
        summary.compact_hidden_json is None,
        forall|j: int|
            0 <= j < db.turns.len() && (#[trigger] db.turns[j]).session_id == session_id
                && !db.turns[j].hidden ==> db.turns[j].status != "running"@,
        0 <= k < db.turns.len(),
        folded_since(db.turns[k], session_id, summary.compact_parent_summary_seq, summary.seq),
        0 <= i < db.turns.len(),
        db.turns[i].turn_id != summary.turn_id,
    ensures
        ({
            let (after, (count, prompt)) = db.undo_last_turn(session_id);
            let row = db.turns[i];
            let folded = folded_since(
                row,
                session_id,
                summary.compact_parent_summary_seq,
                summary.seq,
            );
            &&& count == 1
            &&& prompt is None
            &&& folded ==> after.turns.contains((TurnRowModel { hidden: false, ..row }))
            &&& !folded ==> after.turns.contains(row)
            &&& forall|j: int|
                0 <= j < after.turns.len() ==> (#[trigger] after.turns[j]).turn_id
                    != summary.turn_id
        }),
{
    let parent = summary.compact_parent_summary_seq;
    let running = visible_running(session_id);
    if any(db.turns, running) {
        let j = choose|j: int| 0 <= j < db.turns.len() && running(#[trigger] db.turns[j]);
        assert(db.turns[j].status == "running"@);
    }
    let p = hidden_since(session_id, parent, summary.seq);
    assert(p(db.turns[k]));
    let shown = change_where(db.turns, p, set_hidden(false));
    let gone = with_turn_id(summary.turn_id);
    let after = db.undo_last_turn(session_id).0;
    assert(after.turns == shown.filter(not(gone)));
    assert(shown.contains(shown[i]));
    lemma_filter_contains(shown, not(gone), shown[i]);
    assert forall|j: int| 0 <= j < after.turns.len() implies (#[trigger] after.turns[j]).turn_id
        != summary.turn_id by {
        assert(after.turns.contains(after.turns[j]));
        lemma_filter_contains(shown, not(gone), after.turns[j]);
    }
}

} // verus!
