//! Laws of what is kept of a generation that was cut off.

use crate::facts::{
    lemma_filter_change, lemma_filter_contains, lemma_filter_none, lemma_filter_push, lemma_first,
    lemma_first_kept,
};
use crate::json::json_strings;
use crate::laws::reading::{lemma_last_in_order, lemma_listing};
use crate::laws::turns::{
    distinct_turns, lemma_distinct_filter, lemma_one_recovered, lemma_one_turn,
    lemma_some_recovered, settled_backups,
};
use crate::state::db::DbModel;
use crate::state::journal::{
    by_event_id, by_index, close_any, closed, content_of, ends_in, event_at, open_segment_of,
    reasoning_of, segment_at, segment_of, unless_blank, INTERRUPTED_TEXT, PENDING_PLACEHOLDER,
};
use crate::state::keys::{lemma_unique_filter, lemma_unique_ordered, unique};
use crate::state::queue::{
    by_prompt_seq, first_parts, id_and_content, prompt_id_of, stale_taken_up, waiting_at,
};
use crate::state::recovery::{running_segment_of, stale_turn};
use crate::state::redo::{backup_at, consumed_by, event_of, prompt_among};
use crate::state::rows::{
    JournalEventRowModel, JournalSegmentRowModel, QueuedPromptRowModel, TurnRowModel,
};
use crate::table::{any, change_where, first, last_of, lemma_order_by_len, not, order_by};
use crate::text::trimmed;
use vstd::prelude::*;

verus! {

/// Texts, one behind the other.
pub open spec fn joined(texts: Seq<Seq<char>>) -> Seq<char>
    decreases texts.len(),
{
    if texts.len() == 0 {
        Seq::empty()
    } else {
        joined(texts.drop_last()) + texts.last()
    }
}

/// An event of a kind that tells something.
pub open spec fn tells_kind(kind: Seq<char>) -> spec_fn(JournalEventRowModel) -> bool {
    |e: JournalEventRowModel| e.event.kind == kind && e.event.text_payload is Some
}

/// What an event tells.
pub open spec fn text_told() -> spec_fn(JournalEventRowModel) -> Seq<char> {
    |e: JournalEventRowModel| e.event.text_payload->0
}

/// The texts of the events of one kind.
pub open spec fn texts_of(events: Seq<JournalEventRowModel>, kind: Seq<char>) -> Seq<Seq<char>> {
    events.filter(tells_kind(kind)).map_values(text_told())
}

proof fn lemma_texts_push(events: Seq<JournalEventRowModel>, kind: Seq<char>)
    requires
        events.len() > 0,
    ensures
        joined(texts_of(events, kind)) == joined(texts_of(events.drop_last(), kind)) + if tells_kind(
            kind,
        )(events.last()) {
            events.last().event.text_payload->0
        } else {
            Seq::empty()
        },
{
    let rest = events.drop_last();
    let last = events.last();
    assert(rest.push(last) =~= events);
    lemma_filter_push(rest, last, tells_kind(kind));
    let before = rest.filter(tells_kind(kind));
    if tells_kind(kind)(last) {
        assert(before.push(last).map_values(text_told()) =~= before.map_values(text_told()).push(
            last.event.text_payload->0,
        ));
        assert(texts_of(events, kind).drop_last() =~= texts_of(rest, kind));
    } else {
        assert(joined(texts_of(rest, kind)) + Seq::<char>::empty() =~= joined(
            texts_of(rest, kind),
        ));
    }
}

proof fn lemma_content(events: Seq<JournalEventRowModel>)
    ensures
        content_of(events) == joined(texts_of(events, "assistant_content"@)),
    decreases events.len(),
{
    if events.len() > 0 {
        lemma_content(events.drop_last());
        lemma_texts_push(events, "assistant_content"@);
        let rest = content_of(events.drop_last());
        assert(rest + Seq::<char>::empty() =~= rest);
    } else {
        reveal(Seq::filter);
        assert(texts_of(events, "assistant_content"@).len() == 0);
    }
}

/// What was thought since the model last began anew.
proof fn lemma_reasoning(events: Seq<JournalEventRowModel>, from: int)
    requires
        0 <= from <= events.len(),
        from == 0 || events[from - 1].event.kind == "reasoning_reset"@,
        forall|k: int| from <= k < events.len() ==> (#[trigger] events[k]).event.kind
            != "reasoning_reset"@,
    ensures
        reasoning_of(events) == joined(texts_of(events.skip(from), "assistant_reasoning"@)),
    decreases events.len(),
{
    let rest = events.skip(from);
    if from == events.len() {
        reveal(Seq::filter);
        assert(rest.len() == 0);
        assert(texts_of(rest, "assistant_reasoning"@).len() == 0);
        if events.len() > 0 {
            assert(events.last().event.kind == "reasoning_reset"@);
        }
    } else {
        let before = events.drop_last();
        assert forall|k: int| from <= k < before.len() implies (#[trigger] before[k]).event.kind
            != "reasoning_reset"@ by {
            assert(before[k] == events[k]);
        }
        lemma_reasoning(before, from);
        assert(rest.drop_last() =~= before.skip(from));
        assert(rest.last() == events.last());
        assert(events[events.len() - 1].event.kind != "reasoning_reset"@);
        lemma_texts_push(rest, "assistant_reasoning"@);
        let told = reasoning_of(before);
        assert(told + Seq::<char>::empty() =~= told);
    }
}

/// Whether `events` are the events of a segment, in their order.
pub open spec fn journal_of(
    events: Seq<JournalEventRowModel>,
    db: DbModel,
    turn_id: Seq<char>,
    revision: i64,
    index: i64,
) -> bool {
    &&& forall|a: int, b: int|
        0 <= a < b < events.len() ==> (#[trigger] events[a]).event.event_id < (
        #[trigger] events[b]).event.event_id
    &&& forall|e: JournalEventRowModel| #[trigger]
        events.contains(e) == (db.events.contains(e) && e.turn_id == turn_id && e.event.revision
            == revision && e.event.segment_index == index)
}

/// Whether no two events have the same id.
pub open spec fn distinct_events(db: DbModel) -> bool {
    forall|a: int, b: int|
        0 <= a < b < db.events.len() ==> (#[trigger] db.events[a]).event.event_id != (
        #[trigger] db.events[b]).event.event_id
}

/// Two lists of the same events in the same order.
proof fn lemma_same_list(a: Seq<JournalEventRowModel>, b: Seq<JournalEventRowModel>)
    requires
        forall|i: int, j: int|
            0 <= i < j < a.len() ==> (#[trigger] a[i]).event.event_id < (
            #[trigger] a[j]).event.event_id,
        forall|i: int, j: int|
            0 <= i < j < b.len() ==> (#[trigger] b[i]).event.event_id < (
            #[trigger] b[j]).event.event_id,
        forall|e: JournalEventRowModel| #[trigger] a.contains(e) == b.contains(e),
    ensures
        a == b,
    decreases a.len(),
{
    if a.len() == 0 {
        if b.len() > 0 {
            assert(b.contains(b[0]));
            assert(a.contains(b[0]));
        }
        assert(a =~= b);
    } else {
        assert(a.contains(a[0]));
        assert(b.contains(a[0]));
        let x = a.last();
        let y = b.last();
        assert(a[a.len() - 1] == x);
        assert(b[b.len() - 1] == y);
        assert(a.contains(x) && b.contains(y));
        assert(a.contains(y) && b.contains(x));
        let i = a.index_of(y);
        let j = b.index_of(x);
        if i < a.len() - 1 && j < b.len() - 1 {
            assert(a[i].event.event_id < a[a.len() - 1].event.event_id);
            assert(b[j].event.event_id < b[b.len() - 1].event.event_id);
        }
        assert(x == y);
        let c = a.drop_last();
        let d = b.drop_last();
        assert forall|e: JournalEventRowModel| #[trigger] c.contains(e) == d.contains(e) by {
            if c.contains(e) {
                let k = c.index_of(e);
                assert(a[k] == e);
                assert(a[k].event.event_id < a[a.len() - 1].event.event_id);
                assert(a.contains(e));
                assert(b.contains(e));
                let m = b.index_of(e);
                assert(m < d.len());
                assert(d[m] == e);
            }
            if d.contains(e) {
                let k = d.index_of(e);
                assert(b[k] == e);
                assert(b[k].event.event_id < b[b.len() - 1].event.event_id);
                assert(b.contains(e));
                assert(a.contains(e));
                let m = a.index_of(e);
                assert(m < c.len());
                assert(c[m] == e);
            }
        }
        lemma_same_list(c, d);
        assert(a =~= c.push(x));
        assert(b =~= d.push(y));
    }
}

/// The events of a segment as they are found.
proof fn lemma_journal_found(
    events: Seq<JournalEventRowModel>,
    db: DbModel,
    turn_id: Seq<char>,
    revision: i64,
    index: i64,
)
    requires
        distinct_events(db),
        journal_of(events, db, turn_id, revision, index),
    ensures
        order_by(db.events.filter(event_at(turn_id, revision, index)), by_event_id()) == events,
{
    let p = event_at(turn_id, revision, index);
    let found = order_by(db.events.filter(p), by_event_id());
    lemma_listing(db.events, p, by_event_id());
    let key = |e: JournalEventRowModel| e.event.event_id;
    assert(unique(db.events, key)) by {
        let ids = db.events.map_values(key);
        assert forall|a: int, b: int| 0 <= a < ids.len() && 0 <= b < ids.len() && a
            != b implies ids[a] != ids[b] by {
            if a < b {
                assert(db.events[a].event.event_id != db.events[b].event.event_id);
            } else {
                assert(db.events[b].event.event_id != db.events[a].event.event_id);
            }
        }
    }
    lemma_unique_filter(db.events, p, key);
    lemma_unique_ordered(db.events.filter(p), by_event_id(), key);
    let ids = found.map_values(key);
    assert forall|a: int, b: int| 0 <= a < b < found.len() implies (
    #[trigger] found[a]).event.event_id < (#[trigger] found[b]).event.event_id by {
        assert(!by_event_id()(found[b], found[a]));
        assert(ids[a] != ids[b]);
    }
    assert forall|e: JournalEventRowModel| #[trigger] found.contains(e) == events.contains(e) by {}
    lemma_same_list(found, events);
}

/// What a generation had said when it was cut off is kept: the texts that its
/// journal holds of the stretch that was open last, one behind the other, and a
/// notice behind them. Where it had said nothing there is the notice alone. What
/// it had thought since it last began anew is kept too.
pub proof fn law_cut_off_answer_is_what_was_said(
    db: DbModel,
    turn_id: Seq<char>,
    revision: i64,
    i: int,
    events: Seq<JournalEventRowModel>,
    from: int,
)
    requires
        0 <= i < db.segments.len(),
        db.segments[i].turn_id == turn_id,
        db.segments[i].revision == revision,
        db.segments[i].status != "superseded"@,
        forall|k: int|
            0 <= k < db.segments.len() && k != i && (#[trigger] db.segments[k]).turn_id == turn_id
                && db.segments[k].revision == revision && db.segments[k].status != "superseded"@
                ==> db.segments[k].segment_index < db.segments[i].segment_index,
        distinct_events(db),
        journal_of(events, db, turn_id, revision, db.segments[i].segment_index),
        0 <= from <= events.len(),
        from == 0 || events[from - 1].event.kind == "reasoning_reset"@,
        forall|k: int| from <= k < events.len() ==> (#[trigger] events[k]).event.kind
            != "reasoning_reset"@,
    ensures
        ({
            let said = joined(texts_of(events, "assistant_content"@));
            let thought = joined(texts_of(events.skip(from), "assistant_reasoning"@));
            let (content, reasoning) = db.interrupted_projection(turn_id, revision);
            &&& trimmed(said).len() > 0 ==> content == said + "\n\n"@ + INTERRUPTED_TEXT@
            &&& trimmed(said).len() == 0 ==> content == INTERRUPTED_TEXT@
            &&& trimmed(thought).len() > 0 ==> reasoning == Some(thought)
            &&& trimmed(thought).len() == 0 ==> reasoning is None
        }),
{
    let p = open_segment_of(turn_id, revision);
    let mine = db.segments.filter(p);
    let segment = db.segments[i];
    assert(db.segments.contains(segment));
    lemma_filter_contains(db.segments, p, segment);
    assert forall|k: int| 0 <= k < mine.len() && #[trigger] mine[k] != segment implies by_index()(
        mine[k],
        segment,
    ) by {
        assert(mine.contains(mine[k]));
        lemma_filter_contains(db.segments, p, mine[k]);
        let j = db.segments.index_of(mine[k]);
        assert(db.segments[j] == mine[k]);
    }
    lemma_last_in_order(mine, by_index(), segment);
    lemma_journal_found(events, db, turn_id, revision, segment.segment_index);
    lemma_content(events);
    lemma_reasoning(events, from);
}

/// Whatever a generation had said, what is kept of it ends in the notice, and is
/// not what stands for an answer that is still to come.
proof fn lemma_ends_in_notice(db: DbModel, turn_id: Seq<char>, revision: i64)
    ensures
        ends_in(db.interrupted_projection(turn_id, revision).0, INTERRUPTED_TEXT@),
{
    let content = db.interrupted_projection(turn_id, revision).0;
    let n = INTERRUPTED_TEXT@.len();
    assert(content.skip(content.len() - n) =~= INTERRUPTED_TEXT@);
}

proof fn lemma_notice_is_no_placeholder(content: Seq<char>)
    requires
        ends_in(content, INTERRUPTED_TEXT@),
    ensures
        content != PENDING_PLACEHOLDER@,
{
    reveal_strlit(
        "<system-reminder>上一轮prompt已被中断，除非用户重新要求否则不要处理上一轮的prompt</system-reminder>",
    );
    reveal_strlit(
        "<system-reminder>上一轮prompt正在由另一轮回复处理中，你只需要回应用户当前的prompt，不要处理上一轮的prompt</system-reminder>",
    );
    let notice = INTERRUPTED_TEXT@;
    let pending = PENDING_PLACEHOLDER@;
    let k = notice.len() - 33;
    assert(notice[k] == '则');
    assert(pending[pending.len() - 33] == '，');
    assert(content.skip(content.len() - notice.len())[k] == content[content.len() - 33]);
}

/// Whether two stores hold the same journal of a turn.
spec fn same_journal(a: DbModel, b: DbModel, turn_id: Seq<char>) -> bool {
    &&& a.segments.filter(segment_by(turn_id)) == b.segments.filter(segment_by(turn_id))
    &&& a.events.filter(event_by(turn_id)) == b.events.filter(event_by(turn_id))
}

spec fn segment_by(turn_id: Seq<char>) -> spec_fn(JournalSegmentRowModel) -> bool {
    |r: JournalSegmentRowModel| r.turn_id == turn_id
}

spec fn event_by(turn_id: Seq<char>) -> spec_fn(JournalEventRowModel) -> bool {
    |r: JournalEventRowModel| r.turn_id == turn_id
}

/// What is told of a turn depends on its own journal alone.
proof fn lemma_told_by_own_journal(a: DbModel, b: DbModel, turn_id: Seq<char>, revision: i64)
    requires
        same_journal(a, b, turn_id),
    ensures
        a.interrupted_projection(turn_id, revision) == b.interrupted_projection(turn_id, revision),
{
    let p = open_segment_of(turn_id, revision);
    lemma_first_kept(a.segments, segment_by(turn_id), p);
    lemma_first_kept(b.segments, segment_by(turn_id), p);
    if let Some(segment) = last_of(order_by(a.segments.filter(p), by_index())) {
        let q = event_at(turn_id, revision, segment.segment_index);
        lemma_first_kept(a.events, event_by(turn_id), q);
        lemma_first_kept(b.events, event_by(turn_id), q);
    }
}

/// Changes of rows that a filter does not let through.
proof fn lemma_filter_others_changed<V>(
    s: Seq<V>,
    p: spec_fn(V) -> bool,
    f: spec_fn(V) -> V,
    q: spec_fn(V) -> bool,
)
    requires
        forall|v: V| #[trigger] p(v) ==> !q(v) && !q(f(v)),
    ensures
        change_where(s, p, f).filter(q) == s.filter(q),
{
    assert forall|v: V| p(v) implies q(#[trigger] f(v)) == q(v) by {}
    lemma_filter_change(s, p, f, q);
    let mine = s.filter(q);
    assert forall|i: int| 0 <= i < mine.len() implies !p(#[trigger] mine[i]) by {
        assert(mine.contains(mine[i]));
        lemma_filter_contains(s, q, mine[i]);
    }
    assert(change_where(mine, p, f) =~= mine);
}

/// Whether no prompt waits in a queue.
spec fn none_wait(db: DbModel, queue: Option<Seq<char>>) -> bool {
    forall|i: int|
        0 <= i < db.queued_prompts.len() && (#[trigger] db.queued_prompts[i]).status == "queued"@
            ==> db.queued_prompts[i].queue_session_id is None
            || db.queued_prompts[i].queue_session_id != queue
}

proof fn lemma_journal_begun_elsewhere(
    db: DbModel,
    other: Seq<char>,
    revision: i64,
    now: Seq<char>,
    turn_id: Seq<char>,
)
    requires
        other != turn_id,
    ensures
        same_journal(db, db.journal_begun(other, revision, now), turn_id),
{
    let begun = db.journal_begun(other, revision, now);
    if begun != db {
        lemma_filter_push(db.segments, begun.segments.last(), segment_by(turn_id));
    }
}

proof fn lemma_taken_up_elsewhere(
    db: DbModel,
    other: Seq<char>,
    revision: i64,
    ids_json: Seq<char>,
    close: spec_fn(Seq<char>) -> bool,
    now: Seq<char>,
    turn_id: Seq<char>,
)
    requires
        other != turn_id,
        db.prompts_taken_up(other, revision, ids_json, close, now) is Ok,
    ensures
        same_journal(
            db,
            db.prompts_taken_up(other, revision, ids_json, close, now)->Ok_0,
            turn_id,
        ),
        db.prompts_taken_up(other, revision, ids_json, close, now)->Ok_0.queued_prompts
            == db.queued_prompts,
        db.prompts_taken_up(other, revision, ids_json, close, now)->Ok_0.turns == db.turns,
        db.prompts_taken_up(other, revision, ids_json, close, now)->Ok_0.backups == db.backups,
{
    let after = db.prompts_taken_up(other, revision, ids_json, close, now)->Ok_0;
    let segment = db.current_segment(other, revision)->0;
    let p = segment_at(other, revision, segment.segment_index);
    lemma_filter_others_changed(
        db.segments,
        p,
        closed("completed"@, now),
        segment_by(turn_id),
    );
    let kept = after.segments.drop_last();
    assert(after.segments =~= kept.push(after.segments.last()));
    assert(kept == db.segments || kept == change_where(
        db.segments,
        p,
        closed("completed"@, now),
    )) by {
        let changed = change_where(db.segments, p, closed("completed"@, now));
        assert(changed.push(after.segments.last()).drop_last() =~= changed);
        assert(db.segments.push(after.segments.last()).drop_last() =~= db.segments);
    }
    lemma_filter_push(kept, after.segments.last(), segment_by(turn_id));
    lemma_filter_push(db.events, after.events.last(), event_by(turn_id));
    assert(after.events =~= db.events.push(after.events.last()));
}

/// Taking up prompts that nobody waits for any more makes none wait.
proof fn lemma_taken_up_wait_no_more(
    db: DbModel,
    rows: Seq<QueuedPromptRowModel>,
    queue: Seq<char>,
    turn_id: Seq<char>,
    batch: Seq<(Seq<char>, Seq<char>)>,
    content: Option<Seq<char>>,
    reasoning: Option<Seq<char>>,
    now: Seq<char>,
    n: nat,
    awaited: Option<Seq<char>>,
)
    requires
        none_wait((DbModel { queued_prompts: rows, ..db }), awaited),
        stale_taken_up(rows, queue, turn_id, batch, content, reasoning, now, n) is Ok,
    ensures
        none_wait(
            (DbModel {
                queued_prompts: stale_taken_up(
                    rows,
                    queue,
                    turn_id,
                    batch,
                    content,
                    reasoning,
                    now,
                    n,
                )->Ok_0,
                ..db
            }),
            awaited,
        ),
    decreases n,
{
    if n > 0 {
        lemma_taken_up_wait_no_more(
            db,
            rows,
            queue,
            turn_id,
            batch,
            content,
            reasoning,
            now,
            (n - 1) as nat,
            awaited,
        );
        let before = stale_taken_up(
            rows,
            queue,
            turn_id,
            batch,
            content,
            reasoning,
            now,
            (n - 1) as nat,
        )->Ok_0;
        let after = stale_taken_up(
            rows,
            queue,
            turn_id,
            batch,
            content,
            reasoning,
            now,
            n,
        )->Ok_0;
        reveal_strlit("consumed");
        reveal_strlit("queued");
        assert("consumed"@.len() != "queued"@.len());
        let mid = DbModel { queued_prompts: before, ..db };
        assert forall|i: int| 0 <= i < after.len() && (#[trigger] after[i]).status
            == "queued"@ implies after[i].queue_session_id is None || after[i].queue_session_id
            != awaited by {
            assert(after[i] == before[i]);
            assert(mid.queued_prompts[i].status == "queued"@);
        }
    }
}

/// Cutting another turn off leaves the journal of this one, and the prompts that
/// wait for it, alone.
proof fn lemma_cut_off_elsewhere(
    db: DbModel,
    other: TurnRowModel,
    now: Seq<char>,
    turn_id: Seq<char>,
    queue: Option<Seq<char>>,
)
    requires
        other.turn_id != turn_id,
        none_wait(db, queue),
        db.turn_cut_off(other, now) is Ok,
    ensures
        ({
            let after = db.turn_cut_off(other, now)->Ok_0.0;
            &&& same_journal(db, after, turn_id)
            &&& none_wait(after, queue)
            &&& after.backups == db.backups
        }),
{
    let noted = db.stale_prompts_consumed(
        other.turn_id,
        other.revision,
        other.queue_session_id,
        now,
    )->Ok_0;
    assert(same_journal(db, noted, turn_id) && none_wait(noted, queue) && noted.backups
        == db.backups) by {
        if noted != db {
            let name = other.queue_session_id->0;
            let batch = order_by(
                db.queued_prompts.filter(waiting_at(name)),
                by_prompt_seq(),
            ).map_values(id_and_content());
            let begun = db.journal_begun(other.turn_id, other.revision, now);
            lemma_journal_begun_elsewhere(db, other.turn_id, other.revision, now, turn_id);
            let segment = begun.current_segment(other.turn_id, other.revision)->0;
            let (content, reasoning) = if segment.status == "running"@ {
                begun.segment_projection(other.turn_id, other.revision, segment.segment_index)
            } else {
                (Seq::empty(), None)
            };
            let prompts = stale_taken_up(
                begun.queued_prompts,
                name,
                other.turn_id,
                batch,
                unless_blank(content),
                reasoning,
                now,
                batch.len(),
            )->Ok_0;
            lemma_taken_up_wait_no_more(
                db,
                begun.queued_prompts,
                name,
                other.turn_id,
                batch,
                unless_blank(content),
                reasoning,
                now,
                batch.len(),
                queue,
            );
            lemma_taken_up_elsewhere(
                DbModel { queued_prompts: prompts, ..begun },
                other.turn_id,
                other.revision,
                json_strings(first_parts(batch)),
                close_any(),
                now,
                turn_id,
            );
        }
    }
    let after = db.turn_cut_off(other, now)->Ok_0.0;
    lemma_filter_others_changed(
        noted.segments,
        running_segment_of(other.turn_id, other.revision),
        closed("interrupted"@, now),
        segment_by(turn_id),
    );
    assert(after.queued_prompts == noted.queued_prompts);
}

/// Taking a redo of another turn back leaves the journal of this one, and the
/// prompts that wait for it, alone.
proof fn lemma_restored_elsewhere(
    db: DbModel,
    other: Seq<char>,
    other_revision: i64,
    turn_id: Seq<char>,
    revision: i64,
    queue: Option<Seq<char>>,
)
    requires
        other != turn_id,
        none_wait(db, queue),
        db.restore_redo_backup(other, other_revision) is Ok,
    ensures
        ({
            let after = db.restore_redo_backup(other, other_revision)->Ok_0.0;
            &&& same_journal(db, after, turn_id)
            &&& none_wait(after, queue)
            &&& first(after.backups, backup_at(turn_id, revision)) == first(
                db.backups,
                backup_at(turn_id, revision),
            )
        }),
{
    let after = db.restore_redo_backup(other, other_revision)->Ok_0.0;
    if after != db {
        let b = first(db.backups, backup_at(other, other_revision))->0.payload;
        let late = db.queued_prompts.filter(consumed_by(other)).map_values(prompt_id_of()).filter(
            |id: Seq<char>| !b.consumed_prompt_ids.contains(id),
        );
        lemma_first_kept(
            db.segments,
            not(segment_of(other, other_revision)),
            segment_by(turn_id),
        );
        lemma_first_kept(db.events, not(event_of(other, other_revision)), event_by(turn_id));
        lemma_first_kept(
            db.backups,
            not(backup_at(other, other_revision)),
            backup_at(turn_id, revision),
        );
        let kept = db.queued_prompts.filter(not(prompt_among(late)));
        assert forall|i: int| 0 <= i < after.queued_prompts.len() && (
        #[trigger] after.queued_prompts[i]).status
            == "queued"@ implies after.queued_prompts[i].queue_session_id is None
            || after.queued_prompts[i].queue_session_id != queue by {
            assert(kept.contains(kept[i]));
            lemma_filter_contains(db.queued_prompts, not(prompt_among(late)), kept[i]);
            let k = db.queued_prompts.index_of(kept[i]);
            assert(db.queued_prompts[k].status == "queued"@);
        }
    }
}

/// One turn that was cut off, where no prompt waits for it.
proof fn lemma_cut_off_here(db: DbModel, turn: TurnRowModel, now: Seq<char>, i: int)
    requires
        distinct_turns(db.turns),
        0 <= i < db.turns.len(),
        db.turns[i] == turn,
        turn.status == "running"@,
        first(db.backups, backup_at(turn.turn_id, turn.revision)) is None,
        db.turn_recovered(turn, now) is Ok,
    ensures
        ({
            let (after, note) = db.turn_recovered(turn, now)->Ok_0;
            let row = after.turns[i];
            &&& note matches Some(told) && told.turn_id == turn.turn_id && told.session_id
                == turn.session_id && !told.restored_redo
            &&& row.status == "interrupted"@
            &&& row.assistant_timestamp == Some(now)
            &&& row.user_content == turn.user_content
            &&& row.display_content == turn.display_content
            &&& row.session_id == turn.session_id
            &&& row.hidden == turn.hidden
            &&& ends_in(row.assistant_content, INTERRUPTED_TEXT@)
            &&& none_wait(db, turn.queue_session_id) ==> (
            row.assistant_content,
            row.assistant_reasoning,
            ) == db.interrupted_projection(turn.turn_id, turn.revision)
        }),
{
    lemma_one_turn(db.turns, turn);
    let noted = db.stale_prompts_consumed(
        turn.turn_id,
        turn.revision,
        turn.queue_session_id,
        now,
    )->Ok_0;
    lemma_ends_in_notice(noted, turn.turn_id, turn.revision);
    if none_wait(db, turn.queue_session_id) {
        if let Some(queue) = turn.queue_session_id {
            let p = waiting_at(queue);
            if any(db.queued_prompts, p) {
                let k = choose|k: int|
                    0 <= k < db.queued_prompts.len() && p(#[trigger] db.queued_prompts[k]);
                assert(db.queued_prompts[k].status == "queued"@);
            }
            lemma_filter_none(db.queued_prompts, p);
            lemma_order_by_len(db.queued_prompts.filter(p), by_prompt_seq());
        }
        assert(noted == db);
    }
}

/// The journal and the prompts of a turn, after the first `n` stale turns were put
/// in order, none of which is this one.
proof fn lemma_untouched(
    db: DbModel,
    stale: Seq<TurnRowModel>,
    now: Seq<char>,
    n: nat,
    turn: TurnRowModel,
)
    requires
        n <= stale.len(),
        db.turns_recovered(stale, now, n) is Ok,
        forall|k: int| 0 <= k < n ==> (#[trigger] stale[k]).turn_id != turn.turn_id,
        none_wait(db, turn.queue_session_id),
        first(db.backups, backup_at(turn.turn_id, turn.revision)) is None,
    ensures
        ({
            let after = db.turns_recovered(stale, now, n)->Ok_0.0;
            &&& same_journal(db, after, turn.turn_id)
            &&& none_wait(after, turn.queue_session_id)
            &&& first(after.backups, backup_at(turn.turn_id, turn.revision)) is None
        }),
    decreases n,
{
    if n > 0 {
        lemma_untouched(db, stale, now, (n - 1) as nat, turn);
        let before = db.turns_recovered(stale, now, (n - 1) as nat)->Ok_0.0;
        let other = stale[n - 1];
        lemma_restored_elsewhere(
            before,
            other.turn_id,
            other.revision,
            turn.turn_id,
            turn.revision,
            turn.queue_session_id,
        );
        let (restored, done) = before.restore_redo_backup(other.turn_id, other.revision)->Ok_0;
        if !done {
            lemma_cut_off_elsewhere(restored, other, now, turn.turn_id, turn.queue_session_id);
        }
    }
}

/// That a turn has no backup is not changed by what is done to others.
proof fn lemma_no_backup_comes(
    db: DbModel,
    stale: Seq<TurnRowModel>,
    now: Seq<char>,
    n: nat,
    turn: TurnRowModel,
)
    requires
        n <= stale.len(),
        db.turns_recovered(stale, now, n) is Ok,
        first(db.backups, backup_at(turn.turn_id, turn.revision)) is None,
    ensures
        first(
            db.turns_recovered(stale, now, n)->Ok_0.0.backups,
            backup_at(turn.turn_id, turn.revision),
        ) is None,
    decreases n,
{
    if n > 0 {
        lemma_no_backup_comes(db, stale, now, (n - 1) as nat, turn);
        let before = db.turns_recovered(stale, now, (n - 1) as nat)->Ok_0.0;
        let after = db.turns_recovered(stale, now, n)->Ok_0.0;
        let p = backup_at(turn.turn_id, turn.revision);
        let other = stale[n - 1];
        let gone = backup_at(other.turn_id, other.revision);
        assert(after.backups == before.backups || after.backups == before.backups.filter(
            not(gone),
        ));
        lemma_first(before.backups, p);
        let kept = before.backups.filter(not(gone));
        lemma_first(kept, p);
        if any(kept, p) {
            let i = choose|i: int| 0 <= i < kept.len() && p(#[trigger] kept[i]);
            assert(kept.contains(kept[i]));
            lemma_filter_contains(before.backups, not(gone), kept[i]);
            let k = before.backups.index_of(kept[i]);
            assert(p(before.backups[k]));
        }
    }
}

/// The row of a stale turn, once it and `n` in all were put in order.
proof fn lemma_row_settled(
    db: DbModel,
    stale: Seq<TurnRowModel>,
    now: Seq<char>,
    n: nat,
    k: int,
    i: int,
)
    requires
        distinct_turns(db.turns),
        settled_backups(db),
        distinct_turns(stale),
        0 <= k < n <= stale.len(),
        forall|m: int|
            0 <= m < stale.len() ==> db.turns.contains(#[trigger] stale[m]) && stale[m].status
                == "running"@,
        db.turns_recovered(stale, now, n) is Ok,
        0 <= i < db.turns.len(),
        db.turns[i] == stale[k],
    ensures
        db.turns_recovered(stale, now, (k + 1) as nat) is Ok,
        db.turns_recovered(stale, now, k as nat) is Ok,
        db.turns_recovered(stale, now, k as nat)->Ok_0.0.turn_recovered(stale[k], now) is Ok,
        db.turns_recovered(stale, now, k as nat)->Ok_0.0.turns[i] == stale[k],
        db.turns_recovered(stale, now, n)->Ok_0.0.turns[i] == db.turns_recovered(
            stale,
            now,
            k as nat,
        )->Ok_0.0.turn_recovered(stale[k], now)->Ok_0.0.turns[i],
    decreases n,
{
    let m = (n - 1) as nat;
    lemma_some_recovered(db, stale, now, m);
    let before = db.turns_recovered(stale, now, m)->Ok_0.0;
    if k == m {
        assert forall|j: int| 0 <= j < m implies (#[trigger] stale[j]).turn_id
            != db.turns[i].turn_id by {
            assert(stale[j].turn_id != stale[k].turn_id);
        }
    } else {
        lemma_row_settled(db, stale, now, m, k, i);
        let other = stale[n - 1];
        let at = db.turns.index_of(other);
        assert(db.turns[at] == other);
        assert forall|j: int| 0 <= j < m implies (#[trigger] stale[j]).turn_id
            != db.turns[at].turn_id by {
            assert(stale[j].turn_id != stale[n - 1].turn_id);
        }
        assert(before.turns[at] == other);
        assert(distinct_turns(before.turns)) by {
            assert forall|a: int, b: int| 0 <= a < b < before.turns.len() implies (
            #[trigger] before.turns[a]).turn_id != (#[trigger] before.turns[b]).turn_id by {
                assert(db.turns[a].turn_id != db.turns[b].turn_id);
            }
        }
        lemma_one_recovered(before, other, now);
        assert(stale[k].turn_id != stale[n - 1].turn_id);
        assert(before.turns[i].turn_id == db.turns[i].turn_id);
    }
}

/// A turn whose process died, and that is no redo, is kept as far as it had come.
/// It is marked as interrupted, what was asked stays, and its answer ends in the
/// notice of the interruption, so that it is not what stands for an answer still
/// to come. Where no prompt waits for it, the answer is what its own journal holds.
pub proof fn law_stale_answer_is_kept(db: DbModel, alive: Seq<u32>, now: Seq<char>, i: int)
    requires
        distinct_turns(db.turns),
        settled_backups(db),
        db.recover_stale_running_turns(alive, now) is Ok,
        0 <= i < db.turns.len(),
        db.turns[i].status == "running"@,
        db.turns[i].owner_pid matches Some(pid) ==> !alive.contains(pid as u32),
        forall|k: int|
            0 <= k < db.backups.len() ==> (#[trigger] db.backups[k]).turn_id
                != db.turns[i].turn_id,
    ensures
        ({
            let was = db.turns[i];
            let after = db.recover_stale_running_turns(alive, now)->Ok_0.0;
            let row = after.turns[i];
            &&& row.turn_id == was.turn_id
            &&& row.session_id == was.session_id
            &&& row.status == "interrupted"@
            &&& row.user_content == was.user_content
            &&& row.display_content == was.display_content
            &&& row.hidden == was.hidden
            &&& row.assistant_timestamp == Some(now)
            &&& row.assistant_content.len() >= INTERRUPTED_TEXT@.len()
            &&& row.assistant_content.skip(
                row.assistant_content.len() - INTERRUPTED_TEXT@.len(),
            ) == INTERRUPTED_TEXT@
            &&& row.assistant_content != PENDING_PLACEHOLDER@
            &&& (forall|k: int|
                0 <= k < db.queued_prompts.len() && (#[trigger] db.queued_prompts[k]).status
                    == "queued"@ ==> db.queued_prompts[k].queue_session_id is None
                    || db.queued_prompts[k].queue_session_id != was.queue_session_id) ==> (
            row.assistant_content,
            row.assistant_reasoning,
            ) == db.interrupted_projection(was.turn_id, was.revision)
        }),
{
    let p = stale_turn(alive);
    let stale = db.turns.filter(p);
    let turn = db.turns[i];
    lemma_distinct_filter(db.turns, p);
    assert forall|m: int| 0 <= m < stale.len() implies db.turns.contains(#[trigger] stale[m])
        && stale[m].status == "running"@ by {
        assert(stale.contains(stale[m]));
        lemma_filter_contains(db.turns, p, stale[m]);
    }
    assert(db.turns.contains(turn));
    lemma_filter_contains(db.turns, p, turn);
    let k = stale.index_of(turn);
    let n = stale.len();
    lemma_row_settled(db, stale, now, n, k, i);
    lemma_some_recovered(db, stale, now, n);
    lemma_some_recovered(db, stale, now, k as nat);
    let before = db.turns_recovered(stale, now, k as nat)->Ok_0.0;
    assert(distinct_turns(before.turns)) by {
        assert forall|a: int, b: int| 0 <= a < b < before.turns.len() implies (
        #[trigger] before.turns[a]).turn_id != (#[trigger] before.turns[b]).turn_id by {
            assert(db.turns[a].turn_id != db.turns[b].turn_id);
        }
    }
    let at = backup_at(turn.turn_id, turn.revision);
    lemma_first(db.backups, at);
    if any(db.backups, at) {
        let j = choose|j: int| 0 <= j < db.backups.len() && at(#[trigger] db.backups[j]);
        assert(db.backups[j].turn_id == turn.turn_id);
    }
    lemma_no_backup_comes(db, stale, now, k as nat, turn);
    lemma_cut_off_here(before, turn, now, i);
    lemma_notice_is_no_placeholder(before.turn_recovered(turn, now)->Ok_0.0.turns[i].assistant_content);
    if none_wait(db, turn.queue_session_id) {
        assert forall|j: int| 0 <= j < k implies (#[trigger] stale[j]).turn_id != turn.turn_id by {
            assert(stale[j].turn_id != stale[k].turn_id);
        }
        lemma_untouched(db, stale, now, k as nat, turn);
        lemma_told_by_own_journal(db, before, turn.turn_id, turn.revision);
    }
}

} // verus!
