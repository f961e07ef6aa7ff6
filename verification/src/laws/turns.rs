//! Laws of turns, of the prompts that wait for them, and of what is kept of them.

use crate::facts::{
    lemma_filter_contains, lemma_filter_none, lemma_first, lemma_first_change, lemma_order_contains,
    lemma_rejected,
};
use crate::laws::compact::lemma_largest_seq;
use crate::state::db::DbModel;
use crate::state::queue::{
    batch_taken_up, by_prompt_seq, folded_into, prompt_id_of, waiting_in, waiting_prompt,
    waiting_with_id, Preceding,
};
use crate::state::recovery::{at_seq, settled_after, stale_turn};
use crate::state::redo::{running_revision, with_turn_id};
use crate::state::replay::{replay_json, truncated, within_budget, REPLAY_JOURNAL_MAX_CHARS};
use crate::state::rows::{QueuedPromptRowModel, TurnRowModel};
use crate::state::turns::turn_of;
use crate::state::types::ReplayEntryModel;
use crate::table::{any, count, first, not};
use crate::text::byte_len;
use vstd::prelude::*;

verus! {

/// A turn that comes to its end stands behind everything of its session that is
/// settled: the finished history only grows at its end. A redone turn keeps its
/// place.
pub proof fn law_history_grows_at_its_end(db: DbModel, turn_id: Seq<char>)
    requires
        first(db.turns, with_turn_id(turn_id)) matches Some(turn) && turn.revision == 0,
        db.completion_seq_bumped(turn_id) is Ok,
    ensures
        ({
            let after = db.completion_seq_bumped(turn_id)->Ok_0;
            let moved = first(after.turns, with_turn_id(turn_id))->0;
            &&& first(after.turns, with_turn_id(turn_id)) is Some
            &&& !any(after.turns, settled_after(moved))
        }),
{
    let after = db.completion_seq_bumped(turn_id)->Ok_0;
    let turn = first(db.turns, with_turn_id(turn_id))->0;
    if any(db.turns, settled_after(turn)) {
        let seq = db.next_seq(turn.session_id)->0;
        lemma_first_change(db.turns, with_turn_id(turn_id), at_seq(seq), with_turn_id(turn_id));
        lemma_first(db.turns, with_turn_id(turn_id));
        let moved = first(after.turns, with_turn_id(turn_id))->0;
        if any(after.turns, settled_after(moved)) {
            let i = choose|i: int|
                0 <= i < after.turns.len() && settled_after(moved)(#[trigger] after.turns[i]);
            let r = db.turns[i];
            assert(db.turns.contains(r));
            lemma_filter_contains(db.turns, turn_of(turn.session_id), r);
            lemma_largest_seq(db.turns.filter(turn_of(turn.session_id)), r);
        }
    }
}

/// When a session last sent a request never goes back.
pub proof fn law_last_request_never_goes_back(
    db: DbModel,
    turn_id: Seq<char>,
    stamp: i64,
    i: int,
    last: i64,
)
    requires
        0 <= i < db.sessions.len(),
        db.sessions[i].last_request_at == Some(last),
    ensures
        ({
            let after = db.request_noted(turn_id, stamp);
            after.sessions[i].last_request_at matches Some(now) && now >= last
        }),
{
}

/// After the prompts of a queue were withdrawn, none waits in it, and those of
/// other sessions and queues wait as before.
pub proof fn law_withdrawn_prompts_wait_no_more(
    db: DbModel,
    session_id: Seq<char>,
    queue: Seq<char>,
    other_session: Seq<char>,
    other_queue: Seq<char>,
)
    ensures
        db.delete_queued_prompts(session_id, queue).0.waiting(session_id, queue) == Seq::<
            QueuedPromptRowModel,
        >::empty(),
        other_session != session_id || other_queue != queue ==> db.delete_queued_prompts(
            session_id,
            queue,
        ).0.waiting(other_session, other_queue) == db.waiting(other_session, other_queue),
{
    let p = waiting_in(session_id, queue);
    lemma_rejected(db.queued_prompts, p);
    if other_session != session_id || other_queue != queue {
        crate::facts::lemma_first_kept(
            db.queued_prompts,
            not(p),
            waiting_in(other_session, other_queue),
        );
    }
}

proof fn lemma_consumed_is_not_queued()
    ensures
        "consumed"@ != "queued"@,
{
    reveal_strlit("consumed");
    reveal_strlit("queued");
    assert("consumed"@.len() != "queued"@.len());
}

/// A prompt that is still waiting after some were folded into a turn is as it
/// was, and not one of them.
proof fn lemma_folded(
    rows: Seq<QueuedPromptRowModel>,
    turn_id: Seq<char>,
    ids: Seq<Seq<char>>,
    content: Option<Seq<char>>,
    reasoning: Option<Seq<char>>,
    now: Seq<char>,
    n: nat,
    i: int,
)
    requires
        n <= ids.len(),
        0 <= i < rows.len(),
    ensures
        ({
            let done = folded_into(rows, turn_id, ids, content, reasoning, now, n);
            &&& done.len() == rows.len()
            &&& done[i].status == "queued"@ ==> done[i] == rows[i] && forall|k: int|
                0 <= k < n ==> #[trigger] ids[k] != rows[i].prompt_id
        }),
    decreases n,
{
    lemma_consumed_is_not_queued();
    if n > 0 {
        lemma_folded(rows, turn_id, ids, content, reasoning, now, (n - 1) as nat, i);
        let before = folded_into(rows, turn_id, ids, content, reasoning, now, (n - 1) as nat);
        let done = folded_into(rows, turn_id, ids, content, reasoning, now, n);
        if done[i].status == "queued"@ {
            assert(!waiting_with_id(ids[n - 1])(before[i]));
            assert(done[i] == before[i]);
        }
    }
}

/// Once a queue was discarded, no prompt waits in it: each was dropped, or went
/// to the turn that it was meant for.
pub proof fn law_discarded_queue_is_empty(
    db: DbModel,
    session_id: Seq<char>,
    queue: Seq<char>,
    now: Seq<char>,
)
    requires
        db.discard_queued_prompts(session_id, queue, now) is Ok,
    ensures
        !any(
            db.discard_queued_prompts(session_id, queue, now)->Ok_0.0.queued_prompts,
            waiting_in(session_id, queue),
        ),
{
    let p = waiting_in(session_id, queue);
    let after = db.discard_queued_prompts(session_id, queue, now)->Ok_0.0.queued_prompts;
    let mine = db.queued_prompts.filter(p);
    let rows = db.waiting(session_id, queue);
    let ids = rows.map_values(prompt_id_of());
    lemma_rejected(db.queued_prompts, p);
    if any(after, p) && after != db.queued_prompts.filter(not(p)) {
        let turn = db.turn_of_queue(session_id, queue)->0;
        let interrupted = turn.status == "interrupted"@;
        let said = if interrupted {
            crate::state::journal::uninterrupted(turn.assistant_content)
        } else {
            turn.assistant_content
        };
        let content = crate::state::journal::unless_blank(said);
        assert(after == folded_into(
            db.queued_prompts,
            turn.turn_id,
            ids,
            content,
            turn.assistant_reasoning,
            now,
            ids.len(),
        ));
        let i = choose|i: int| 0 <= i < after.len() && p(#[trigger] after[i]);
        if db.queued_prompts.len() > 0 {
            lemma_folded(
                db.queued_prompts,
                turn.turn_id,
                ids,
                content,
                turn.assistant_reasoning,
                now,
                ids.len(),
                0,
            );
        }
        lemma_folded_len(
            db.queued_prompts,
            turn.turn_id,
            ids,
            content,
            turn.assistant_reasoning,
            now,
            ids.len(),
        );
        lemma_folded(
            db.queued_prompts,
            turn.turn_id,
            ids,
            content,
            turn.assistant_reasoning,
            now,
            ids.len(),
            i,
        );
        let r = db.queued_prompts[i];
        assert(p(r));
        assert(db.queued_prompts.contains(r));
        lemma_filter_contains(db.queued_prompts, p, r);
        lemma_order_contains(mine, by_prompt_seq(), r);
        let k = rows.index_of(r);
        assert(ids[k] == r.prompt_id);
    }
}

proof fn lemma_folded_len(
    rows: Seq<QueuedPromptRowModel>,
    turn_id: Seq<char>,
    ids: Seq<Seq<char>>,
    content: Option<Seq<char>>,
    reasoning: Option<Seq<char>>,
    now: Seq<char>,
    n: nat,
)
    ensures
        folded_into(rows, turn_id, ids, content, reasoning, now, n).len() == rows.len(),
    decreases n,
{
    if n > 0 {
        lemma_folded_len(rows, turn_id, ids, content, reasoning, now, (n - 1) as nat);
    }
}

/// A prompt is handed out once: after a batch was taken up, none of its prompts
/// waits any more.
pub proof fn law_prompt_is_taken_up_once(
    rows: Seq<QueuedPromptRowModel>,
    session_id: Seq<char>,
    queue: Seq<char>,
    turn_id: Seq<char>,
    batch: Seq<(Seq<char>, Seq<char>)>,
    said: Preceding,
    now: Seq<char>,
    n: nat,
    k: int,
)
    requires
        n <= batch.len(),
        0 <= k < n,
        batch_taken_up(rows, session_id, queue, turn_id, batch, said, now, n) is Ok,
    ensures
        !any(
            batch_taken_up(rows, session_id, queue, turn_id, batch, said, now, n)->Ok_0,
            waiting_prompt(batch[k].0, session_id, queue),
        ),
    decreases n,
{
    lemma_consumed_is_not_queued();
    let m = (n - 1) as nat;
    let before = batch_taken_up(rows, session_id, queue, turn_id, batch, said, now, m)->Ok_0;
    let after = batch_taken_up(rows, session_id, queue, turn_id, batch, said, now, n)->Ok_0;
    let p = waiting_prompt(batch[n - 1].0, session_id, queue);
    let q = waiting_prompt(batch[k].0, session_id, queue);
    if k < m {
        law_prompt_is_taken_up_once(
            rows,
            session_id,
            queue,
            turn_id,
            batch,
            said,
            now,
            m,
            k,
        );
    }
    if any(after, q) {
        let i = choose|i: int| 0 <= i < after.len() && q(#[trigger] after[i]);
        if p(before[i]) {
            assert(after[i].status == "consumed"@);
        } else {
            assert(after[i] == before[i]);
            assert(q(before[i]));
        }
    }
}

/// A transcript that is kept is short enough or a single entry, is never empty
/// where there was something to tell, and holds the end of it.
pub proof fn law_transcript_fits(entries: Seq<ReplayEntryModel>)
    ensures
        within_budget(entries).len() <= 1 || byte_len(replay_json(within_budget(entries)))
            <= REPLAY_JOURNAL_MAX_CHARS,
        entries.len() > 0 ==> within_budget(entries).len() > 0,
        within_budget(entries).is_suffix_of(entries),
    decreases entries.len(),
{
    if entries.len() > 1 && byte_len(replay_json(entries)) > REPLAY_JOURNAL_MAX_CHARS {
        law_transcript_fits(entries.drop_first());
    }
}

/// A text that was cut keeps its beginning, and says so with one character.
pub proof fn law_cut_text_keeps_its_beginning(text: Seq<char>, max: nat)
    ensures
        truncated(text, max).len() <= max + 1,
        text.len() <= max ==> truncated(text, max) == text,
        text.len() > max ==> truncated(text, max).take(max as int) == text.take(max as int),
{
    reveal_strlit("…");
    if text.len() > max {
        assert(truncated(text, max).take(max as int) =~= text.take(max as int));
    }
}

/// Whether turns are told apart by their ids.
pub open spec fn distinct_turns(turns: Seq<TurnRowModel>) -> bool {
    forall|i: int, j: int|
        0 <= i < j < turns.len() ==> (#[trigger] turns[i]).turn_id != (#[trigger] turns[j]).turn_id
}

/// Whether every backup is of a turn that was settled.
pub open spec fn settled_backups(db: DbModel) -> bool {
    forall|i: int| 0 <= i < db.backups.len() ==> (#[trigger] db.backups[i]).payload.status
        != "running"@
}

/// Whether `after` differs from `before` in the turn `id` alone, and that one
/// does not run.
pub open spec fn only_settled(before: Seq<TurnRowModel>, after: Seq<TurnRowModel>, id: Seq<char>) -> bool {
    &&& after.len() == before.len()
    &&& forall|i: int|
        0 <= i < before.len() ==> (#[trigger] after[i]).turn_id == before[i].turn_id && (
        before[i].turn_id != id ==> after[i] == before[i]) && (before[i].turn_id == id
            ==> after[i].status != "running"@)
}

proof fn lemma_backups_filtered(db: DbModel, p: spec_fn(crate::state::rows::BackupRowModel) -> bool)
    requires
        settled_backups(db),
    ensures
        settled_backups((DbModel { backups: db.backups.filter(p), ..db })),
{
    let kept = db.backups.filter(p);
    assert forall|i: int| 0 <= i < kept.len() implies (#[trigger] kept[i]).payload.status
        != "running"@ by {
        assert(kept.contains(kept[i]));
        lemma_filter_contains(db.backups, p, kept[i]);
        let k = db.backups.index_of(kept[i]);
        assert(db.backups[k].payload.status != "running"@);
    }
}

/// The turn that runs under an id, where ids are told apart.
pub proof fn lemma_one_turn(turns: Seq<TurnRowModel>, turn: TurnRowModel)
    requires
        distinct_turns(turns),
        turns.contains(turn),
        turn.status == "running"@,
    ensures
        count(turns, running_revision(turn.turn_id, turn.revision)) == 1,
        forall|i: int| #![trigger turns[i]]
            0 <= i < turns.len() && turns[i].turn_id == turn.turn_id ==> turns[i] == turn,
{
    let p = running_revision(turn.turn_id, turn.revision);
    let k = turns.index_of(turn);
    assert(turns =~= turns.take(k) + seq![turn] + turns.skip(k + 1));
    let head = turns.take(k);
    let tail = turns.skip(k + 1);
    if any(head, p) {
        let i = choose|i: int| 0 <= i < head.len() && p(#[trigger] head[i]);
        assert(turns[i].turn_id != turns[k].turn_id);
    }
    if any(tail, p) {
        let i = choose|i: int| 0 <= i < tail.len() && p(#[trigger] tail[i]);
        assert(turns[k].turn_id != turns[i + k + 1].turn_id);
    }
    crate::facts::lemma_filter_concat(head + seq![turn], tail, p);
    crate::facts::lemma_filter_concat(head, seq![turn], p);
    lemma_filter_none(head, p);
    lemma_filter_none(tail, p);
    assert(seq![turn] =~= Seq::<TurnRowModel>::empty().push(turn));
    crate::facts::lemma_filter_push(Seq::<TurnRowModel>::empty(), turn, p);
    assert(!any(Seq::<TurnRowModel>::empty(), p));
    lemma_filter_none(Seq::<TurnRowModel>::empty(), p);
    assert forall|i: int| #![trigger turns[i]]
        0 <= i < turns.len() && turns[i].turn_id == turn.turn_id implies turns[i] == turn by {
        if i < k {
            assert(turns[i].turn_id != turns[k].turn_id);
        }
        if k < i {
            assert(turns[k].turn_id != turns[i].turn_id);
        }
    }
}

/// One stale turn put in order: it does not run any more, and no other turn was
/// touched.
pub proof fn lemma_one_recovered(db: DbModel, turn: TurnRowModel, now: Seq<char>)
    requires
        distinct_turns(db.turns),
        settled_backups(db),
        db.turns.contains(turn),
        turn.status == "running"@,
        db.turn_recovered(turn, now) is Ok,
    ensures
        only_settled(db.turns, db.turn_recovered(turn, now)->Ok_0.0.turns, turn.turn_id),
        settled_backups(db.turn_recovered(turn, now)->Ok_0.0),
{
    let next = db.turn_recovered(turn, now)->Ok_0.0;
    let p = running_revision(turn.turn_id, turn.revision);
    lemma_one_turn(db.turns, turn);
    let at = crate::state::redo::backup_at(turn.turn_id, turn.revision);
    lemma_first(db.backups, at);
    reveal_strlit("interrupted");
    reveal_strlit("running");
    assert("interrupted"@.len() != "running"@.len());
    match first(db.backups, at) {
        Some(row) => {
            let k = db.backups.index_of(row);
            assert(db.backups[k].payload.status != "running"@);
            lemma_backups_filtered(db, not(at));
        },
        None => {},
    }
}

/// Turns that differ still differ where some are left out.
pub proof fn lemma_distinct_filter(turns: Seq<TurnRowModel>, p: spec_fn(TurnRowModel) -> bool)
    requires
        distinct_turns(turns),
    ensures
        distinct_turns(turns.filter(p)),
    decreases turns.len(),
{
    reveal(Seq::filter);
    if turns.len() > 0 {
        let rest = turns.drop_last();
        assert forall|i: int, j: int| 0 <= i < j < rest.len() implies (#[trigger] rest[i]).turn_id
            != (#[trigger] rest[j]).turn_id by {
            assert(turns[i].turn_id != turns[j].turn_id);
        }
        lemma_distinct_filter(rest, p);
        let kept = rest.filter(p);
        if p(turns.last()) {
            let all = kept.push(turns.last());
            assert forall|i: int, j: int| 0 <= i < j < all.len() implies (#[trigger] all[i]).turn_id
                != (#[trigger] all[j]).turn_id by {
                if j == kept.len() {
                    assert(kept.contains(kept[i]));
                    lemma_filter_contains(rest, p, kept[i]);
                    let k = rest.index_of(kept[i]);
                    assert(turns[k].turn_id != turns[turns.len() - 1].turn_id);
                } else {
                    assert(kept[i].turn_id != kept[j].turn_id);
                }
            }
        }
    }
}

/// The first `n` stale turns put in order.
pub proof fn lemma_some_recovered(db: DbModel, stale: Seq<TurnRowModel>, now: Seq<char>, n: nat)
    requires
        distinct_turns(db.turns),
        settled_backups(db),
        distinct_turns(stale),
        n <= stale.len(),
        forall|k: int|
            0 <= k < stale.len() ==> db.turns.contains(#[trigger] stale[k]) && stale[k].status
                == "running"@,
        db.turns_recovered(stale, now, n) is Ok,
    ensures
        ({
            let after = db.turns_recovered(stale, now, n)->Ok_0.0;
            &&& after.turns.len() == db.turns.len()
            &&& settled_backups(after)
            &&& forall|i: int|
                0 <= i < db.turns.len() ==> (#[trigger] after.turns[i]).turn_id
                    == db.turns[i].turn_id && ({
                    ||| after.turns[i] == db.turns[i]
                    ||| after.turns[i].status != "running"@
                })
            &&& forall|i: int, k: int|
                0 <= i < db.turns.len() && 0 <= k < n && (#[trigger] db.turns[i]).turn_id == (
                #[trigger] stale[k]).turn_id ==> after.turns[i].status != "running"@
            &&& forall|i: int|
                0 <= i < db.turns.len() && (forall|k: int|
                    0 <= k < n ==> (#[trigger] stale[k]).turn_id != db.turns[i].turn_id)
                    ==> #[trigger] after.turns[i] == db.turns[i]
        }),
    decreases n,
{
    if n > 0 {
        let m = (n - 1) as nat;
        lemma_some_recovered(db, stale, now, m);
        let before = db.turns_recovered(stale, now, m)->Ok_0.0;
        let after = db.turns_recovered(stale, now, n)->Ok_0.0;
        let turn = stale[n - 1];
        let at = db.turns.index_of(turn);
        assert(db.turns[at] == turn);
        assert forall|k: int| 0 <= k < m implies (#[trigger] stale[k]).turn_id
            != db.turns[at].turn_id by {
            assert(stale[k].turn_id != stale[n - 1].turn_id);
        }
        assert(before.turns[at] == turn);
        assert(distinct_turns(before.turns)) by {
            assert forall|i: int, j: int| 0 <= i < j < before.turns.len() implies (
            #[trigger] before.turns[i]).turn_id != (#[trigger] before.turns[j]).turn_id by {
                assert(db.turns[i].turn_id != db.turns[j].turn_id);
            }
        }
        lemma_one_recovered(before, turn, now);
        assert forall|i: int, k: int|
            0 <= i < db.turns.len() && 0 <= k < n && (#[trigger] db.turns[i]).turn_id == (
            #[trigger] stale[k]).turn_id implies after.turns[i].status != "running"@ by {
            assert(before.turns[i].turn_id == db.turns[i].turn_id);
            if k < m {
                assert(before.turns[i].status != "running"@);
                assert(stale[k].turn_id != stale[n - 1].turn_id);
                assert(after.turns[i] == before.turns[i]);
            } else {
                assert(after.turns[i].status != "running"@);
            }
        }
        assert forall|i: int|
            0 <= i < db.turns.len() && (forall|k: int|
                0 <= k < n ==> (#[trigger] stale[k]).turn_id
                    != db.turns[i].turn_id) implies #[trigger] after.turns[i] == db.turns[i] by {
            assert(stale[n - 1].turn_id != db.turns[i].turn_id);
            assert(before.turns[i] == db.turns[i]);
        }
        assert forall|i: int| 0 <= i < db.turns.len() implies (#[trigger] after.turns[i]).turn_id
            == db.turns[i].turn_id && ({
            ||| after.turns[i] == db.turns[i]
            ||| after.turns[i].status != "running"@
        }) by {
            assert(before.turns[i].turn_id == db.turns[i].turn_id);
        }
    }
}

/// After a recovery no turn runs whose process is gone, and turns whose process
/// lives were not touched.
pub proof fn law_recovery_leaves_no_stale_turn(db: DbModel, alive: Seq<u32>, now: Seq<char>)
    requires
        distinct_turns(db.turns),
        settled_backups(db),
        db.recover_stale_running_turns(alive, now) is Ok,
    ensures
        ({
            let after = db.recover_stale_running_turns(alive, now)->Ok_0.0;
            &&& !any(after.turns, stale_turn(alive))
            &&& after.turns.len() == db.turns.len()
            &&& forall|i: int|
                0 <= i < db.turns.len() && !stale_turn(alive)(db.turns[i])
                    ==> #[trigger] after.turns[i] == db.turns[i]
        }),
{
    let p = stale_turn(alive);
    let stale = db.turns.filter(p);
    let after = db.recover_stale_running_turns(alive, now)->Ok_0.0;
    lemma_distinct_filter(db.turns, p);
    assert forall|k: int| 0 <= k < stale.len() implies db.turns.contains(#[trigger] stale[k])
        && stale[k].status == "running"@ && p(stale[k]) by {
        assert(stale.contains(stale[k]));
        lemma_filter_contains(db.turns, p, stale[k]);
    }
    lemma_some_recovered(db, stale, now, stale.len());
    assert forall|i: int| 0 <= i < db.turns.len() && !p(
        db.turns[i],
    ) implies #[trigger] after.turns[i]
        == db.turns[i] by {
        assert forall|k: int| 0 <= k < stale.len() implies (#[trigger] stale[k]).turn_id
            != db.turns[i].turn_id by {
            let j = db.turns.index_of(stale[k]);
            if i < j {
                assert(db.turns[i].turn_id != db.turns[j].turn_id);
            }
            if j < i {
                assert(db.turns[j].turn_id != db.turns[i].turn_id);
            }
        }
    }
    if any(after.turns, p) {
        let i = choose|i: int| 0 <= i < after.turns.len() && p(#[trigger] after.turns[i]);
        if p(db.turns[i]) {
            assert(db.turns.contains(db.turns[i]));
            lemma_filter_contains(db.turns, p, db.turns[i]);
            let k = stale.index_of(db.turns[i]);
            assert(db.turns[i].turn_id == stale[k].turn_id);
        }
    }
}

} // verus!
