//! Laws of pruning and deleting turns, and of what a conversation has cost.

use crate::facts::{
    lemma_filter_both, lemma_filter_change, lemma_filter_contains, lemma_filter_none,
    lemma_filter_push, lemma_first_kept, lemma_map_change, lemma_map_filter, lemma_order_contains,
    lemma_order_filter,
};
use crate::json::{json_strings, strings_or_none};
use crate::laws::turn_keys::lemma_popped;
use crate::state::cascade::{event_among, question_among, segment_among, turn_id_of};
use crate::state::checkpoint::question_of;
use crate::state::compact::{
    completed_plain, poppable, prunable, pruned, pruned_note, set_hidden, turn_among, turn_anywhere,
    united, visible_among,
};
use crate::state::db::DbModel;
use crate::state::error::StateErrorModel;
use crate::state::keys::{
    lemma_contains_key, lemma_unique_at, lemma_unique_filter, lemma_unique_ordered, unique,
};
use crate::state::reset::{
    both, run_cache, run_prompt, run_total, running_sum, subagent_of, turn_cache, turn_prompt,
    turn_total,
};
use crate::state::rows::{JournalEventRowModel, TurnRowModel};
use crate::state::sessions::by_seq;
use crate::state::turns::{evictable_turn, holds, holds_in_force, result_for, turn_of};
use crate::state::types::{TurnModel, TurnTokensModel};
use crate::table::{any, change_where, count, limited, not, order_by};
use vstd::prelude::*;

verus! {

/// At how many places two sequences of turns differ.
pub open spec fn differences(a: Seq<TurnRowModel>, b: Seq<TurnRowModel>) -> nat
    decreases a.len(),
{
    if a.len() == 0 || b.len() == 0 {
        0
    } else {
        differences(a.drop_last(), b.drop_last()) + if a.last() == b.last() {
            0nat
        } else {
            1nat
        }
    }
}

proof fn lemma_differences(
    s: Seq<TurnRowModel>,
    p: spec_fn(TurnRowModel) -> bool,
    f: spec_fn(TurnRowModel) -> TurnRowModel,
)
    requires
        forall|i: int| 0 <= i < s.len() && p(#[trigger] s[i]) ==> f(s[i]) != s[i],
    ensures
        differences(s, change_where(s, p, f)) == count(s, p),
    decreases s.len(),
{
    reveal(Seq::filter);
    if s.len() > 0 {
        let rest = s.drop_last();
        assert forall|i: int| 0 <= i < rest.len() && p(#[trigger] rest[i]) implies f(rest[i])
            != rest[i] by {
            assert(rest[i] == s[i]);
        }
        lemma_differences(rest, p, f);
        assert(change_where(s, p, f).drop_last() =~= change_where(rest, p, f));
        let last = s[s.len() - 1];
        assert(p(last) ==> f(last) != last);
    }
}

/// Two sequences without a key twice are of one length where they have the same
/// keys.
proof fn lemma_same_keys<V>(a: Seq<V>, b: Seq<V>, key: spec_fn(V) -> Seq<char>)
    requires
        unique(a, key),
        unique(b, key),
        forall|k: Seq<char>| #[trigger]
            a.map_values(key).contains(k) == b.map_values(key).contains(k),
    ensures
        a.len() == b.len(),
{
    let x = a.map_values(key);
    let y = b.map_values(key);
    x.unique_seq_to_set();
    y.unique_seq_to_set();
    assert forall|k: Seq<char>| x.to_set().contains(k) == y.to_set().contains(k) by {
        assert(x.contains(k) == y.contains(k));
    }
    assert(x.to_set() =~= y.to_set());
}

/// The completed turns in view, oldest first.
pub open spec fn completed_turns(db: DbModel, session_id: Seq<char>) -> Seq<TurnRowModel> {
    order_by(db.turns.filter(completed_plain(session_id)), by_seq())
}

/// The last `n` of some turns.
pub open spec fn latest(turns: Seq<TurnRowModel>, n: usize) -> Seq<TurnRowModel> {
    if turns.len() <= n {
        turns
    } else {
        turns.skip(turns.len() - n)
    }
}

/// Which turns are among the completed ones.
pub proof fn lemma_completed(db: DbModel, session_id: Seq<char>, r: TurnRowModel)
    ensures
        completed_turns(db, session_id).contains(r) == (db.turns.contains(r) && completed_plain(
            session_id,
        )(r)),
{
    let plain = db.turns.filter(completed_plain(session_id));
    lemma_order_contains(plain, by_seq(), r);
    lemma_filter_contains(db.turns, completed_plain(session_id), r);
}

/// A prune tells how many turns it changed, and changes exactly that many. It
/// changes none where it would not save as much as was asked, and never one of
/// the latest turns, which are protected. What it changes is one line.
pub proof fn law_prune_changes_what_it_counts(
    db: DbModel,
    session_id: Seq<char>,
    protect_recent: usize,
    min_saved_chars: usize,
)
    requires
        db.well_formed(),
    ensures
        ({
            let (after, (turns, saved)) = db.prune_stale_tool_reports(
                session_id,
                protect_recent,
                min_saved_chars,
            );
            let safe = latest(completed_turns(db, session_id), protect_recent);
            &&& turns == 0 ==> after == db
            &&& turns > 0 ==> saved >= min_saved_chars
            &&& after == (DbModel { turns: after.turns, ..db })
            &&& after.turns.len() == db.turns.len()
            &&& differences(db.turns, after.turns) == turns
            &&& forall|i: int|
                0 <= i < db.turns.len() && safe.contains(#[trigger] db.turns[i])
                    ==> after.turns[i] == db.turns[i]
            &&& forall|i: int|
                0 <= i < db.turns.len() && after.turns[i] != #[trigger] db.turns[i]
                    ==> after.turns[i].tool_reports == json_strings(
                    seq![pruned_note(strings_or_none(db.turns[i].tool_reports).len())],
                )
        }),
{
    let (after, (turns, saved)) = db.prune_stale_tool_reports(
        session_id,
        protect_recent,
        min_saved_chars,
    );
    let rows = db.prune_candidates(session_id, protect_recent);
    let ordered = completed_turns(db, session_id);
    let n = if ordered.len() < protect_recent {
        0
    } else {
        (ordered.len() - protect_recent) as nat
    };
    let old_rows = limited(ordered, n);
    let ids = rows.map_values(turn_id_of());
    let p = turn_among(session_id, ids);
    let key = turn_id_of();
    lemma_unique_filter(db.turns, completed_plain(session_id), key);
    lemma_unique_ordered(db.turns.filter(completed_plain(session_id)), by_seq(), key);
    assert(unique(ordered, key));
    assert(old_rows.map_values(key) =~= ordered.map_values(key).take(old_rows.len() as int));
    assert(unique(old_rows, key)) by {
        let keys = old_rows.map_values(key);
        assert forall|i: int, j: int| 0 <= i < keys.len() && 0 <= j < keys.len() && i
            != j implies keys[i] != keys[j] by {
            assert(ordered.map_values(key)[i] != ordered.map_values(key)[j]);
        }
    }
    lemma_unique_filter(old_rows, prunable(), key);
    // Every candidate is a row of the table, and the row of its id.
    assert forall|r: TurnRowModel| #[trigger] rows.contains(r) implies {
        &&& db.turns.contains(r)
        &&& completed_plain(session_id)(r)
        &&& prunable()(r)
        &&& old_rows.contains(r)
    } by {
        lemma_filter_contains(old_rows, prunable(), r);
        assert(ordered[old_rows.index_of(r)] == r);
        assert(ordered.contains(r));
        lemma_completed(db, session_id, r);
    }
    assert forall|i: int| 0 <= i < db.turns.len() && p(#[trigger] db.turns[i]) implies rows.contains(
        db.turns[i],
    ) by {
        let k = ids.index_of(db.turns[i].turn_id);
        assert(rows.contains(rows[k]));
        lemma_unique_at(db.turns, key, i, db.turns.index_of(rows[k]));
    }
    assert forall|i: int| 0 <= i < db.turns.len() && p(#[trigger] db.turns[i]) implies pruned()(
        db.turns[i],
    ) != db.turns[i] by {
        assert(rows.contains(db.turns[i]));
    }
    lemma_differences(db.turns, p, pruned());
    let hit = db.turns.filter(p);
    lemma_unique_filter(db.turns, p, key);
    assert forall|id: Seq<char>| #[trigger] hit.map_values(key).contains(id) == rows.map_values(
        key,
    ).contains(id) by {
        if hit.map_values(key).contains(id) {
            let i = hit.map_values(key).index_of(id);
            assert(hit.contains(hit[i]));
            lemma_filter_contains(db.turns, p, hit[i]);
        }
        if ids.contains(id) {
            let i = ids.index_of(id);
            assert(rows.contains(rows[i]));
            lemma_filter_contains(db.turns, p, rows[i]);
            lemma_contains_key(hit, key, hit.index_of(rows[i]));
        }
    }
    lemma_same_keys(hit, rows, key);
    let safe = latest(ordered, protect_recent);
    assert forall|i: int| 0 <= i < db.turns.len() && safe.contains(
        #[trigger] db.turns[i],
    ) implies after.turns[i] == db.turns[i] by {
        if p(db.turns[i]) {
            let r = db.turns[i];
            assert(rows.contains(r));
            let j = old_rows.index_of(r);
            let k = safe.index_of(r);
            let at = if ordered.len() <= protect_recent {
                k
            } else {
                k + (ordered.len() - protect_recent)
            };
            assert(ordered[at] == r);
            assert(ordered[j] == r);
            lemma_unique_at(ordered, key, at, j);
        }
    }
    lemma_no_difference(db.turns);
}

proof fn lemma_no_difference(s: Seq<TurnRowModel>)
    ensures
        differences(s, s) == 0,
    decreases s.len(),
{
    if s.len() > 0 {
        lemma_no_difference(s.drop_last());
    }
}

proof fn lemma_one_of_key<V>(
    s: Seq<V>,
    p: spec_fn(V) -> bool,
    key: spec_fn(V) -> Seq<char>,
    id: Seq<char>,
)
    requires
        unique(s, key),
        any(s, p),
        forall|v: V| #[trigger] p(v) ==> key(v) == id,
    ensures
        count(s, p) == 1,
        s.filter(p).map_values(key) == seq![id],
{
    let t = s.filter(p);
    lemma_unique_filter(s, p, key);
    let i = choose|i: int| 0 <= i < s.len() && p(#[trigger] s[i]);
    assert(s.contains(s[i]));
    lemma_filter_contains(s, p, s[i]);
    assert forall|k: int| 0 <= k < t.len() implies key(#[trigger] t[k]) == id by {
        assert(t.contains(t[k]));
        lemma_filter_contains(s, p, t[k]);
    }
    if t.len() > 1 {
        lemma_unique_at(t, key, 0, 1);
    }
    assert(t.map_values(key) =~= seq![id]);
}

/// Turns whose ids are not gone keep all that hangs off them.
proof fn lemma_full_turn_kept(db: DbModel, gone: Seq<Seq<char>>, r: TurnRowModel)
    requires
        !gone.contains(r.turn_id),
    ensures
        db.without_children(gone).full_turn()(r) == db.full_turn()(r),
{
    let after = db.without_children(gone);
    let id = r.turn_id;
    lemma_first_kept(db.questions, not(question_among(gone)), question_of(id));
    assert(after.exchanges(id) == db.exchanges(id));
    let p = db.shown_event(id, r.revision);
    let q = after.shown_event(id, r.revision);
    assert forall|e: JournalEventRowModel| #![trigger holds(e)] p(e) == q(e) by {
        if e.turn_id == id {
            lemma_first_kept(db.segments, not(segment_among(gone)), holds_in_force(e));
            lemma_first_kept(db.segments, not(segment_among(gone)), holds(e));
            lemma_first_kept(db.events, not(event_among(gone)), result_for(e));
        }
    }
    assert forall|e: JournalEventRowModel| #[trigger] p(e) == q(e) by {
        assert(holds(e) == holds(e));
    }
    assert(p =~= q);
    lemma_first_kept(db.events, not(event_among(gone)), p);
    assert(after.as_followup() =~= db.as_followup());
}

/// A turn that is none of `ids`.
pub open spec fn turn_beyond(ids: Seq<Seq<char>>) -> spec_fn(TurnModel) -> bool {
    |t: TurnModel| !ids.contains(t.turn_id)
}

proof fn lemma_popped_turns(db: DbModel, session_id: Seq<char>, ids: Seq<Seq<char>>, n: nat)
    requires
        db.well_formed(),
        n <= ids.len(),
        ids.no_duplicates(),
        forall|i: int|
            0 <= i < ids.len() ==> any(db.turns, poppable(session_id, #[trigger] ids[i])),
    ensures
        db.popped(session_id, ids, n) matches Ok(done) && {
            &&& done.turns == db.turns.filter(not(turn_anywhere(ids.take(n as int))))
            &&& forall|r: TurnRowModel|
                !ids.take(n as int).contains(r.turn_id) ==> #[trigger] done.full_turn()(r)
                    == db.full_turn()(r)
        },
    decreases n,
{
    let key = turn_id_of();
    if n == 0 {
        let none = turn_anywhere(ids.take(0));
        if any(db.turns, none) {
            let i = choose|i: int| 0 <= i < db.turns.len() && none(#[trigger] db.turns[i]);
        }
        lemma_filter_none(db.turns, none);
    } else {
        let m = (n - 1) as nat;
        lemma_popped_turns(db, session_id, ids, m);
        lemma_popped(db, session_id, ids, m);
        let before = db.popped(session_id, ids, m)->Ok_0;
        let gone = ids.take(m as int);
        let more = ids.take(n as int);
        let id = ids[n - 1];
        let p = poppable(session_id, id);
        let i = choose|i: int| 0 <= i < db.turns.len() && p(#[trigger] db.turns[i]);
        let row = db.turns[i];
        if gone.contains(id) {
            let k = gone.index_of(id);
            assert(ids[k] == ids[n - 1]);
        }
        assert(db.turns.contains(row));
        lemma_filter_contains(db.turns, not(turn_anywhere(gone)), row);
        let at = before.turns.index_of(row);
        assert(p(before.turns[at]));
        lemma_one_of_key(before.turns, p, key, id);
        let cut = before.without_turns(p);
        let done = db.popped(session_id, ids, n)->Ok_0;
        assert forall|known: Seq<char>| #[trigger] more.contains(known) == (gone.contains(known)
            || known == id) by {
            if more.contains(known) {
                let k = more.index_of(known);
                if k < m {
                    assert(gone[k] == known);
                }
            }
            if gone.contains(known) {
                assert(more[gone.index_of(known)] == known);
            }
            if known == id {
                assert(more[n - 1] == id);
            }
        }
        assert forall|j: int| 0 <= j < db.turns.len() implies not(turn_anywhere(more))(
            #[trigger] db.turns[j],
        ) == (not(turn_anywhere(gone))(db.turns[j]) && not(p)(db.turns[j])) by {
            if db.turns[j].turn_id == id {
                lemma_unique_at(db.turns, key, i, j);
            }
        }
        lemma_filter_both(
            db.turns,
            not(turn_anywhere(gone)),
            not(p),
            not(turn_anywhere(more)),
        );
        assert forall|r: TurnRowModel| !more.contains(r.turn_id) implies #[trigger] done.full_turn()(
            r,
        ) == db.full_turn()(r) by {
            let bare = DbModel { turns: before.turns.filter(not(p)), ..before };
            lemma_full_turn_kept(bare, seq![id], r);
            assert(bare.full_turn()(r) == before.full_turn()(r)) by {
                assert(bare.as_followup() =~= before.as_followup());
                assert(bare.shown_event(r.turn_id, r.revision) =~= before.shown_event(
                    r.turn_id,
                    r.revision,
                ));
            }
            assert(done.as_followup() =~= cut.as_followup());
            assert(done.shown_event(r.turn_id, r.revision) =~= cut.shown_event(
                r.turn_id,
                r.revision,
            ));
            assert(done.full_turn()(r) == cut.full_turn()(r));
        }
    }
}

/// Deleting turns of the conversation that may be deleted, each named once,
/// succeeds: they are gone, and the others stand as they stood, in the same
/// order.
pub proof fn law_evicted_turns_leave(
    db: DbModel,
    session_id: Seq<char>,
    ids: Seq<Seq<char>>,
    expected: Option<Seq<(Seq<char>, Option<Seq<char>>)>>,
)
    requires
        db.well_formed(),
        ids.no_duplicates(),
        forall|i: int|
            0 <= i < ids.len() ==> any(db.turns, poppable(session_id, #[trigger] ids[i])),
        expected matches Some(tools) ==> db.items_with_sources(session_id, "tool"@) == tools,
    ensures
        db.delete_visible_turns(session_id, ids, expected) matches Ok((after, n)) && {
            &&& n == ids.len() as usize
            &&& after.turns == db.turns.filter(not(turn_anywhere(ids)))
            &&& after.turns_where(turn_of(session_id)) == db.turns_where(
                turn_of(session_id),
            ).filter(turn_beyond(ids))
        },
{
    lemma_popped_turns(db, session_id, ids, ids.len());
    assert(ids.take(ids.len() as int) =~= ids);
    let p = turn_of(session_id);
    let keep = not(turn_anywhere(ids));
    let after = db.popped(session_id, ids, ids.len())->Ok_0;
    let mine = db.turns.filter(p);
    let left = after.turns.filter(p);
    let q = |r: TurnRowModel| p(r) && keep(r);
    lemma_filter_both(db.turns, keep, p, q);
    lemma_filter_both(db.turns, p, keep, q);
    lemma_order_filter(mine, by_seq(), keep);
    let ordered = order_by(mine, by_seq());
    let kept = order_by(left, by_seq());
    assert(kept == ordered.filter(keep));
    lemma_map_filter(ordered, db.full_turn(), keep, turn_beyond(ids));
    assert(kept.map_values(after.full_turn()) =~= kept.map_values(db.full_turn())) by {
        assert forall|i: int| 0 <= i < kept.len() implies after.full_turn()(#[trigger] kept[i])
            == db.full_turn()(kept[i]) by {
            assert(kept.contains(kept[i]));
            lemma_filter_contains(ordered, keep, kept[i]);
        }
    }
    if ids.len() == 0 {
        assert(after == db);
    }
}

/// Where one of the turns may not be deleted, or is named twice, none is.
pub proof fn law_unfit_eviction_fails(
    db: DbModel,
    session_id: Seq<char>,
    ids: Seq<Seq<char>>,
    expected: Option<Seq<(Seq<char>, Option<Seq<char>>)>>,
)
    requires
        db.delete_visible_turns(session_id, ids, expected) is Ok,
    ensures
        ids.no_duplicates(),
        forall|i: int|
            0 <= i < ids.len() ==> any(db.turns, poppable(session_id, #[trigger] ids[i])),
        ids.len() > 0 ==> (expected matches Some(tools) ==> db.items_with_sources(
            session_id,
            "tool"@,
        ) == tools),
{
    if ids.len() > 0 {
        lemma_popped_were_fit(db, session_id, ids, ids.len());
    }
}

proof fn lemma_popped_were_fit(db: DbModel, session_id: Seq<char>, ids: Seq<Seq<char>>, n: nat)
    requires
        n <= ids.len(),
        db.popped(session_id, ids, n) is Ok,
    ensures
        forall|i: int| 0 <= i < n ==> any(db.turns, poppable(session_id, #[trigger] ids[i])),
        forall|i: int, j: int| 0 <= i < j < n ==> ids[i] != ids[j],
        forall|r: TurnRowModel| #[trigger]
            db.popped(session_id, ids, n)->Ok_0.turns.contains(r) ==> {
                &&& db.turns.contains(r)
                &&& forall|i: int| 0 <= i < n ==> !poppable(session_id, #[trigger] ids[i])(r)
            },
    decreases n,
{
    if n > 0 {
        let m = (n - 1) as nat;
        lemma_popped_were_fit(db, session_id, ids, m);
        let before = db.popped(session_id, ids, m)->Ok_0;
        let after = db.popped(session_id, ids, n)->Ok_0;
        let p = poppable(session_id, ids[n - 1]);
        let hit = before.turns.filter(p);
        assert(hit.len() == 1);
        assert(hit.contains(hit[0]));
        lemma_filter_contains(before.turns, p, hit[0]);
        let at = db.turns.index_of(hit[0]);
        assert(p(db.turns[at]));
        assert forall|i: int, j: int| 0 <= i < j < n implies ids[i] != ids[j] by {
            if j == n - 1 && ids[i] == ids[j] {
                assert(!poppable(session_id, ids[i])(hit[0]));
            }
        }
        assert forall|r: TurnRowModel| #[trigger] after.turns.contains(r) implies {
            &&& db.turns.contains(r)
            &&& forall|i: int| 0 <= i < n ==> !poppable(session_id, #[trigger] ids[i])(r)
        } by {
            lemma_filter_contains(before.turns, not(p), r);
        }
    }
}

pub open spec fn id_of_turn() -> spec_fn(TurnModel) -> Seq<char> {
    |t: TurnModel| t.turn_id
}

/// What is offered for deletion can be deleted: the oldest turns are each named
/// once, and each may go.
pub proof fn law_offered_turns_can_go(
    db: DbModel,
    session_id: Seq<char>,
    n: nat,
    expected: Option<Seq<(Seq<char>, Option<Seq<char>>)>>,
)
    requires
        db.well_formed(),
        expected matches Some(tools) ==> db.items_with_sources(session_id, "tool"@) == tools,
    ensures
        ({
            let ids = db.oldest_evictable(session_id, n).map_values(id_of_turn());
            &&& ids.no_duplicates()
            &&& db.delete_visible_turns(session_id, ids, expected) matches Ok((after, gone)) && {
                &&& gone == ids.len() as usize
                &&& after.turns == db.turns.filter(not(turn_anywhere(ids)))
                &&& after.turns_where(turn_of(session_id)) == db.turns_where(
                    turn_of(session_id),
                ).filter(turn_beyond(ids))
            }
        }),
{
    let key = turn_id_of();
    let free = db.turns.filter(evictable_turn(session_id));
    let ordered = order_by(free, by_seq());
    let rows = limited(ordered, n);
    let ids = db.oldest_evictable(session_id, n).map_values(id_of_turn());
    lemma_unique_filter(db.turns, evictable_turn(session_id), key);
    lemma_unique_ordered(free, by_seq(), key);
    assert forall|i: int, j: int| 0 <= i < ids.len() && 0 <= j < ids.len() && i != j implies ids[i]
        != ids[j] by {
        assert(ordered.map_values(key)[i] != ordered.map_values(key)[j]);
    }
    assert forall|i: int| 0 <= i < ids.len() implies any(
        db.turns,
        poppable(session_id, #[trigger] ids[i]),
    ) by {
        let r = rows[i];
        assert(ordered[i] == r);
        assert(ordered.contains(r));
        lemma_order_contains(free, by_seq(), r);
        lemma_filter_contains(db.turns, evictable_turn(session_id), r);
        assert(poppable(session_id, ids[i])(db.turns[db.turns.index_of(r)]));
    }
    law_evicted_turns_leave(db, session_id, ids, expected);
}

/// Whether what a session's turns and runs have cost was counted up from
/// nothing.
pub open spec fn counted_up(db: DbModel, session_id: Seq<char>) -> bool {
    &&& forall|i: int|
        0 <= i < db.turns.len() && turn_of(session_id)(#[trigger] db.turns[i]) ==> {
            &&& db.turns[i].token_total >= 0
            &&& db.turns[i].token_prompt >= 0
            &&& db.turns[i].token_cache_read >= 0
        }
    &&& forall|i: int|
        0 <= i < db.sessions.len() && subagent_of(session_id)(#[trigger] db.sessions[i]) ==> {
            &&& run_total()(db.sessions[i]) >= 0
            &&& run_prompt()(db.sessions[i]) >= 0
            &&& run_cache()(db.sessions[i]) >= 0
        }
}

proof fn lemma_sum_not_negative(numbers: Seq<i64>)
    requires
        forall|i: int| 0 <= i < numbers.len() ==> #[trigger] numbers[i] >= 0,
    ensures
        running_sum(numbers) matches Some(sum) ==> sum >= 0,
    decreases numbers.len(),
{
    if numbers.len() > 0 {
        let rest = numbers.drop_last();
        assert forall|i: int| 0 <= i < rest.len() implies #[trigger] rest[i] >= 0 by {
            assert(numbers[i] >= 0);
        }
        lemma_sum_not_negative(rest);
        assert(numbers[numbers.len() - 1] >= 0);
    }
}

proof fn lemma_sum_push(turns: Seq<i64>, runs: Seq<i64>, n: u64)
    requires
        forall|i: int| 0 <= i < turns.len() ==> #[trigger] turns[i] >= 0,
        forall|i: int| 0 <= i < runs.len() ==> #[trigger] runs[i] >= 0,
        both(running_sum(turns), running_sum(runs)) matches Some(old) && old + n <= i64::MAX,
    ensures
        both(running_sum(turns.push(n as i64)), running_sum(runs)) == Some(
            (both(running_sum(turns), running_sum(runs))->0 + n) as u64,
        ),
{
    lemma_sum_not_negative(turns);
    lemma_sum_not_negative(runs);
    assert(turns.push(n as i64).drop_last() =~= turns);
}

proof fn lemma_cost_grows(
    db: DbModel,
    session_id: Seq<char>,
    p: spec_fn(TurnRowModel) -> bool,
    row: TurnRowModel,
    tokens: TurnTokensModel,
)
    requires
        counted_up(db, session_id),
        row.session_id == session_id,
        row.token_total == tokens.total as i64,
        row.token_prompt == tokens.prompt as i64,
        row.token_cache_read == tokens.cache_read as i64,
        db.token_totals(session_id) matches Ok(cost) && {
            &&& cost.total + tokens.total <= i64::MAX
            &&& cost.prompt + tokens.prompt <= i64::MAX
            &&& cost.cache_read + tokens.cache_read <= i64::MAX
        },
    ensures
        ({
            let turns = change_where(db.turns, p, set_hidden(true)).push(row);
            let cost = db.token_totals(session_id)->Ok_0;
            (DbModel { turns, ..db }).token_totals(session_id) == Ok::<
                TurnTokensModel,
                StateErrorModel,
            >(
                TurnTokensModel {
                    total: (cost.total + tokens.total) as u64,
                    prompt: (cost.prompt + tokens.prompt) as u64,
                    cache_read: (cost.cache_read + tokens.cache_read) as u64,
                },
            )
        }),
{
    let hidden = change_where(db.turns, p, set_hidden(true));
    let mine = db.turns.filter(turn_of(session_id));
    let runs = db.sessions.filter(subagent_of(session_id));
    let f = set_hidden(true);
    lemma_filter_change(db.turns, p, f, turn_of(session_id));
    lemma_map_change(mine, p, f, turn_total());
    lemma_map_change(mine, p, f, turn_prompt());
    lemma_map_change(mine, p, f, turn_cache());
    lemma_filter_push(hidden, row, turn_of(session_id));
    let was = change_where(mine, p, f);
    assert(was.push(row).map_values(turn_total()) =~= mine.map_values(turn_total()).push(
        tokens.total as i64,
    ));
    assert(was.push(row).map_values(turn_prompt()) =~= mine.map_values(turn_prompt()).push(
        tokens.prompt as i64,
    ));
    assert(was.push(row).map_values(turn_cache()) =~= mine.map_values(turn_cache()).push(
        tokens.cache_read as i64,
    ));
    assert forall|i: int| 0 <= i < mine.len() implies {
        &&& (#[trigger] mine[i]).token_total >= 0
        &&& mine[i].token_prompt >= 0
        &&& mine[i].token_cache_read >= 0
    } by {
        assert(mine.contains(mine[i]));
        lemma_filter_contains(db.turns, turn_of(session_id), mine[i]);
        let k = db.turns.index_of(mine[i]);
        assert(turn_of(session_id)(db.turns[k]));
    }
    assert forall|i: int| 0 <= i < runs.len() implies {
        &&& run_total()(#[trigger] runs[i]) >= 0
        &&& run_prompt()(runs[i]) >= 0
        &&& run_cache()(runs[i]) >= 0
    } by {
        assert(runs.contains(runs[i]));
        lemma_filter_contains(db.sessions, subagent_of(session_id), runs[i]);
        let k = db.sessions.index_of(runs[i]);
        assert(subagent_of(session_id)(db.sessions[k]));
    }
    lemma_sum_push(mine.map_values(turn_total()), runs.map_values(run_total()), tokens.total);
    lemma_sum_push(mine.map_values(turn_prompt()), runs.map_values(run_prompt()), tokens.prompt);
    lemma_sum_push(mine.map_values(turn_cache()), runs.map_values(run_cache()), tokens.cache_read);
}

/// A summary adds what it has cost to what the session has cost; the turns that
/// it folds go on counting.
pub proof fn law_summary_adds_its_cost(
    db: DbModel,
    session_id: Seq<char>,
    fold_turn_ids: Seq<Seq<char>>,
    visible_turn_ids: Seq<Seq<char>>,
    summary: Seq<char>,
    tokens: TurnTokensModel,
    estimated: bool,
    footprint_json: Option<Seq<char>>,
    turn_id: Seq<char>,
    now: Seq<char>,
)
    requires
        counted_up(db, session_id),
        db.token_totals(session_id) matches Ok(cost) && {
            &&& cost.total + tokens.total <= i64::MAX
            &&& cost.prompt + tokens.prompt <= i64::MAX
            &&& cost.cache_read + tokens.cache_read <= i64::MAX
        },
    ensures
        ({
            let cost = db.token_totals(session_id)->Ok_0;
            let sum = Ok::<TurnTokensModel, StateErrorModel>(
                TurnTokensModel {
                    total: (cost.total + tokens.total) as u64,
                    prompt: (cost.prompt + tokens.prompt) as u64,
                    cache_read: (cost.cache_read + tokens.cache_read) as u64,
                },
            );
            &&& db.replace_visible_with_summary(
                session_id,
                fold_turn_ids,
                visible_turn_ids,
                summary,
                tokens,
                estimated,
                footprint_json,
                turn_id,
                now,
            ) matches Ok(done) ==> done.0.token_totals(session_id) == sum
            &&& db.insert_summary_turn(
                session_id,
                summary,
                tokens,
                estimated,
                turn_id,
                now,
            ) matches Ok(done) ==> done.0.token_totals(session_id) == sum
        }),
{
    if let Ok(done) = db.replace_visible_with_summary(
        session_id,
        fold_turn_ids,
        visible_turn_ids,
        summary,
        tokens,
        estimated,
        footprint_json,
        turn_id,
        now,
    ) {
        let ids = united(fold_turn_ids, db.summary_ids(session_id));
        let row = done.0.turns.last();
        let p = visible_among(session_id, ids);
        assert(done.0.turns =~= change_where(db.turns, p, set_hidden(true)).push(row));
        lemma_cost_grows(db, session_id, p, row, tokens);
    }
    if let Ok(done) = db.insert_summary_turn(
        session_id,
        summary,
        tokens,
        estimated,
        turn_id,
        now,
    ) {
        let row = done.0.turns.last();
        let none = |r: TurnRowModel| false;
        assert(done.0.turns =~= change_where(db.turns, none, set_hidden(true)).push(row));
        lemma_cost_grows(db, session_id, none, row, tokens);
    }
}

} // verus!
