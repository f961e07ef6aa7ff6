//! Laws of taking over a conversation that was kept as lines of JSON.

use crate::facts::{lemma_filter_contains, lemma_order_contains};
use crate::json::parsed_field;
use crate::laws::compact::lemma_largest_seq;
use crate::laws::web::lemma_decimal_differs;
use crate::state::db::DbModel;
use crate::state::error::StateErrorModel;
use crate::state::legacy::{field, Takeover, CUT_SHORT, NO_REPLY};
use crate::state::redo::with_turn_id;
use crate::state::rows::TurnRowModel;
use crate::state::sessions::by_seq;
use crate::state::turns::turn_of;
use crate::table::{any, order_by};
use crate::text::{decimal, trimmed};
use vstd::prelude::*;

verus! {

/// Whether a line is what a user said.
pub open spec fn asks(line: Seq<char>) -> bool {
    trimmed(line).len() > 0 && parsed_field(line, "role"@) == Some(Some("user"@))
}

/// Whether a line is what the model said.
pub open spec fn replies(line: Seq<char>) -> bool {
    trimmed(line).len() > 0 && parsed_field(line, "role"@) == Some(Some("assistant"@))
}

/// What a line holds under a key, or nothing.
pub open spec fn held(line: Seq<char>, key: Seq<char>) -> Seq<char> {
    match parsed_field(line, key) {
        Some(Some(text)) => text,
        _ => Seq::empty(),
    }
}

/// Which of the first `n` lines are what a user said.
pub open spec fn asked(lines: Seq<Seq<char>>, n: nat) -> Seq<int>
    decreases n,
{
    if n == 0 {
        Seq::empty()
    } else if asks(lines[n - 1]) {
        asked(lines, (n - 1) as nat).push(n - 1)
    } else {
        asked(lines, (n - 1) as nat)
    }
}

/// Whether nobody spoke between two lines.
pub open spec fn silent(lines: Seq<Seq<char>>, from: int, to: int) -> bool {
    forall|w: int| from < w < to ==> !asks(#[trigger] lines[w]) && !replies(lines[w])
}

/// Whether a turn holds what was said at a line: what the user said there and when,
/// in the session, in view.
pub open spec fn holds_line(
    row: TurnRowModel,
    session_id: Seq<char>,
    lines: Seq<Seq<char>>,
    u: int,
) -> bool {
    &&& row.session_id == session_id
    &&& row.user_content == held(lines[u], "content"@)
    &&& row.user_timestamp == held(lines[u], "timestamp"@)
    &&& !row.hidden
    &&& !row.is_summary
}

/// Whether a turn holds what came of the line `u`, where somebody spoke next at
/// the line `v`: what the model said, or that no reply came before the user spoke
/// again.
pub open spec fn holds_reply(
    row: TurnRowModel,
    lines: Seq<Seq<char>>,
    now: Seq<char>,
    v: int,
) -> bool {
    &&& row.status == "completed"@
    &&& replies(lines[v]) ==> {
        &&& row.assistant_content == held(lines[v], "content"@)
        &&& row.assistant_timestamp == Some(now)
        &&& parsed_field(lines[v], "reasoning"@) matches Some(text) ==> row.assistant_reasoning
            == text
    }
    &&& asks(lines[v]) ==> {
        &&& row.assistant_content == NO_REPLY@
        &&& row.assistant_timestamp is None
        &&& row.assistant_reasoning is None
    }
}

/// Whether a takeover has kept all that was said in the first `n` lines; somebody
/// spoke at the lines `next` after what each turn holds.
spec fn kept(
    db: DbModel,
    t: Takeover,
    session_id: Seq<char>,
    lines: Seq<Seq<char>>,
    now: Seq<char>,
    n: nat,
    next: Seq<int>,
) -> bool {
    let users = asked(lines, n);
    let begun = db.turns.len();
    &&& t.db == (DbModel { turns: t.db.turns, ..db })
    &&& t.db.turns.len() == begun + t.migrated
    &&& t.db.turns.take(begun as int) == db.turns
    &&& users.len() == t.migrated + if t.pending is Some {
        1nat
    } else {
        0nat
    }
    &&& next.len() == t.migrated
    &&& forall|k: int|
        0 <= k < t.migrated ==> {
            let row = #[trigger] t.db.turns[begun + k];
            let u = users[k];
            let v = next[k];
            &&& holds_line(row, session_id, lines, u)
            &&& holds_reply(row, lines, now, v)
            &&& u < v < n
            &&& silent(lines, u, v)
            &&& asks(lines[v]) || replies(lines[v])
            &&& row.seq == k + 1
            &&& row.turn_id == "migrated_"@ + decimal(k as nat)
        }
    &&& t.pending matches Some(prompt) ==> {
        &&& prompt.0 == held(lines[users.last()], "timestamp"@)
        &&& prompt.1 == held(lines[users.last()], "content"@)
        &&& silent(lines, users.last(), n as int)
    }
    &&& forall|k: int| 0 <= k < users.len() ==> 0 <= #[trigger] users[k] < n && asks(
        lines[users[k]],
    )
}

/// A takeover before the first line.
spec fn started(db: DbModel) -> Takeover {
    Takeover { db, migrated: 0, pending: None, failed: None }
}

/// The next place in a session whose turns were all taken over.
proof fn lemma_next_place(db: DbModel, t: Takeover, session_id: Seq<char>)
    requires
        !any(db.turns, turn_of(session_id)),
        t.db.turns.len() == db.turns.len() + t.migrated,
        t.db.turns.take(db.turns.len() as int) == db.turns,
        t.migrated < i64::MAX,
        forall|k: int|
            0 <= k < t.migrated ==> {
                let row = #[trigger] t.db.turns[db.turns.len() + k];
                row.session_id == session_id && row.seq == k + 1
            },
    ensures
        t.db.next_seq(session_id) == Some((t.migrated + 1) as i64),
{
    let turns = t.db.turns;
    let begun = db.turns.len();
    let mine = turns.filter(turn_of(session_id));
    let ordered = order_by(mine, by_seq());
    if t.migrated > 0 {
        let row = turns[begun + (t.migrated - 1)];
        assert(turns.contains(row));
        lemma_filter_contains(turns, turn_of(session_id), row);
        lemma_largest_seq(mine, row);
        lemma_order_contains(mine, by_seq(), row);
    }
    if ordered.len() > 0 {
        let last = ordered.last();
        assert(ordered[ordered.len() - 1] == last);
        assert(ordered.contains(last));
        lemma_order_contains(mine, by_seq(), last);
        lemma_filter_contains(turns, turn_of(session_id), last);
        let i = turns.index_of(last);
        if i < begun {
            assert(turns.take(begun as int)[i] == db.turns[i]);
            assert(turn_of(session_id)(db.turns[i]));
        }
        assert(turns[begun + (i - begun)] == last);
    }
}

/// One more turn.
proof fn lemma_one_more(
    db: DbModel,
    t: Takeover,
    session_id: Seq<char>,
    lines: Seq<Seq<char>>,
    now: Seq<char>,
    n: nat,
    next: Seq<int>,
    prompt: (Seq<char>, Seq<char>),
    reply: Seq<char>,
    reasoning: Option<Seq<char>>,
    replied_at: Option<Seq<char>>,
    status: Seq<char>,
)
    requires
        !any(db.turns, turn_of(session_id)),
        t.failed is None,
        t.migrated < i64::MAX,
        kept(db, t, session_id, lines, now, n, next),
        t.with_turn(session_id, prompt, reply, reasoning, replied_at, status).failed is None,
    ensures
        ({
            let more = t.with_turn(session_id, prompt, reply, reasoning, replied_at, status);
            let row = more.db.turns.last();
            &&& more.migrated == t.migrated + 1
            &&& more.pending == t.pending
            &&& more.db == (DbModel { turns: t.db.turns.push(row), ..t.db })
            &&& row.session_id == session_id
            &&& row.user_timestamp == prompt.0
            &&& row.user_content == prompt.1
            &&& row.assistant_content == reply
            &&& row.assistant_reasoning == reasoning
            &&& row.assistant_timestamp == replied_at
            &&& row.status == status
            &&& !row.hidden
            &&& !row.is_summary
            &&& row.seq == t.migrated + 1
            &&& row.turn_id == "migrated_"@ + decimal(t.migrated)
        }),
{
    lemma_next_place(db, t, session_id);
    let more = t.with_turn(session_id, prompt, reply, reasoning, replied_at, status);
    assert(more.db.turns =~= t.db.turns.push(more.db.turns.last()));
}

proof fn lemma_words()
    ensures
        "user"@.len() > 0,
        "assistant"@.len() > 0,
        "user"@ != "assistant"@,
{
    reveal_strlit("user");
    reveal_strlit("assistant");
    assert("user"@.len() != "assistant"@.len());
}

proof fn lemma_asked(lines: Seq<Seq<char>>, n: nat)
    ensures
        asked(lines, n).len() <= n,
    decreases n,
{
    if n > 0 {
        lemma_asked(lines, (n - 1) as nat);
    }
}

proof fn lemma_failed_before(
    begun: Takeover,
    session_id: Seq<char>,
    lines: Seq<Seq<char>>,
    now: Seq<char>,
    n: nat,
)
    requires
        n > 0,
        begun.after(session_id, lines, now, n).failed is None,
    ensures
        begun.after(session_id, lines, now, (n - 1) as nat).failed is None,
{
}

/// After `n` lines.
proof fn lemma_kept(
    db: DbModel,
    session_id: Seq<char>,
    lines: Seq<Seq<char>>,
    now: Seq<char>,
    n: nat,
) -> (next: Seq<int>)
    requires
        !any(db.turns, turn_of(session_id)),
        n <= lines.len() < i64::MAX,
        started(db).after(session_id, lines, now, n).failed is None,
    ensures
        kept(
            db,
            started(db).after(session_id, lines, now, n),
            session_id,
            lines,
            now,
            n,
            next,
        ),
    decreases n,
{
    let start = started(db);
    if n == 0 {
        assert(db.turns.take(db.turns.len() as int) =~= db.turns);
        Seq::empty()
    } else {
        let m = (n - 1) as nat;
        lemma_failed_before(start, session_id, lines, now, n);
        let before = lemma_kept(db, session_id, lines, now, m);
        let t = start.after(session_id, lines, now, m);
        let done = start.after(session_id, lines, now, n);
        let line = lines[n - 1];
        let users = asked(lines, m);
        lemma_words();
        lemma_asked(lines, m);
        let reasoning = match parsed_field(line, "reasoning"@) {
            Some(text) => text,
            None => None,
        };
        assert(field(line, "content"@) == held(line, "content"@));
        assert(field(line, "timestamp"@) == held(line, "timestamp"@));
        if asks(line) {
            match t.pending {
                None => {
                    assert(kept(db, done, session_id, lines, now, n, before));
                    before
                },
                Some(prompt) => {
                    lemma_one_more(
                        db,
                        t,
                        session_id,
                        lines,
                        now,
                        m,
                        before,
                        prompt,
                        NO_REPLY@,
                        None,
                        None,
                        "completed"@,
                    );
                    let next = before.push(n - 1);
                    lemma_grown(db, t, done, session_id, lines, now, n, before, prompt);
                    next
                },
            }
        } else if replies(line) {
            match t.pending {
                None => {
                    assert(kept(db, done, session_id, lines, now, n, before));
                    before
                },
                Some(prompt) => {
                    lemma_one_more(
                        db,
                        t,
                        session_id,
                        lines,
                        now,
                        m,
                        before,
                        prompt,
                        held(line, "content"@),
                        reasoning,
                        Some(now),
                        "completed"@,
                    );
                    let next = before.push(n - 1);
                    lemma_grown(db, t, done, session_id, lines, now, n, before, prompt);
                    next
                },
            }
        } else {
            assert(done == t);
            assert(kept(db, done, session_id, lines, now, n, before));
            before
        }
    }
}

/// A takeover with one more turn, for the prompt that waited.
proof fn lemma_grown(
    db: DbModel,
    t: Takeover,
    done: Takeover,
    session_id: Seq<char>,
    lines: Seq<Seq<char>>,
    now: Seq<char>,
    n: nat,
    before: Seq<int>,
    prompt: (Seq<char>, Seq<char>),
)
    requires
        n > 0,
        kept(db, t, session_id, lines, now, (n - 1) as nat, before),
        t.pending == Some(prompt),
        asks(lines[n - 1]) || replies(lines[n - 1]),
        done.migrated == t.migrated + 1,
        done.db == (DbModel { turns: t.db.turns.push(done.db.turns.last()), ..t.db }),
        done.pending == if asks(lines[n - 1]) {
            Some((held(lines[n - 1], "timestamp"@), held(lines[n - 1], "content"@)))
        } else {
            None
        },
        done.db.turns.last().seq == t.migrated + 1,
        done.db.turns.last().turn_id == "migrated_"@ + decimal(t.migrated),
        done.db.turns.last().user_timestamp == prompt.0,
        done.db.turns.last().user_content == prompt.1,
        done.db.turns.last().session_id == session_id,
        !done.db.turns.last().hidden,
        !done.db.turns.last().is_summary,
        holds_reply(done.db.turns.last(), lines, now, n - 1),
    ensures
        kept(db, done, session_id, lines, now, n, before.push(n - 1)),
{
    lemma_words();
    let m = (n - 1) as nat;
    let users = asked(lines, m);
    let all = asked(lines, n);
    let next = before.push(n - 1);
    let begun = db.turns.len();
    assert(done.db.turns.take(begun as int) =~= t.db.turns.take(begun as int));
    assert forall|k: int| 0 <= k < done.migrated implies {
        let row = #[trigger] done.db.turns[begun + k];
        let u = all[k];
        let v = next[k];
        &&& holds_line(row, session_id, lines, u)
        &&& holds_reply(row, lines, now, v)
        &&& u < v < n
        &&& silent(lines, u, v)
        &&& asks(lines[v]) || replies(lines[v])
        &&& row.seq == k + 1
        &&& row.turn_id == "migrated_"@ + decimal(k as nat)
    } by {
        if k < t.migrated {
            assert(done.db.turns[begun + k] == t.db.turns[begun + k]);
            assert(all[k] == users[k]);
        } else {
            assert(all[k] == users.last());
            assert(users[users.len() - 1] == users.last());
        }
    }
}

/// Every prompt of an old conversation is taken over: each line that a user said
/// becomes one turn of the session, in the order of the lines, with its words and
/// its time, and with what the model said next. Where the user spoke again first,
/// the turn says that no reply came; where the lines end, it says that the reply
/// was cut short. The turns that were there before stay, and the number of turns
/// that is told is the number of such lines.
pub proof fn law_every_prompt_is_taken_over(
    db: DbModel,
    session_id: Seq<char>,
    lines: Seq<Seq<char>>,
    now: Seq<char>,
)
    requires
        forall|i: int| 0 <= i < db.turns.len() ==> (#[trigger] db.turns[i]).session_id != session_id,
        lines.len() < i64::MAX,
        db.migrate_from_jsonl(session_id, lines, now).1 is Ok,
    ensures
        ({
            let (after, told) = db.migrate_from_jsonl(session_id, lines, now);
            let users = asked(lines, lines.len());
            let begun = db.turns.len();
            &&& told == Ok::<nat, StateErrorModel>(users.len())
            &&& after == (DbModel { turns: after.turns, ..db })
            &&& after.turns.len() == begun + users.len()
            &&& after.turns.take(begun as int) == db.turns
            &&& forall|k: int|
                0 <= k < users.len() ==> {
                    let row = #[trigger] after.turns[begun + k];
                    let u = users[k];
                    &&& holds_line(row, session_id, lines, u)
                    &&& row.seq == k + 1
                    &&& forall|v: int|
                        u < v < lines.len() && silent(lines, u, v) && (asks(#[trigger] lines[v])
                            || replies(lines[v])) ==> holds_reply(row, lines, now, v)
                    &&& silent(lines, u, lines.len() as int) ==> {
                        &&& row.assistant_content == CUT_SHORT@
                        &&& row.status == "interrupted"@
                        &&& row.assistant_timestamp is None
                    }
                }
        }),
{
    if any(db.turns, turn_of(session_id)) {
        let p = turn_of(session_id);
        let i = choose|i: int| 0 <= i < db.turns.len() && p(#[trigger] db.turns[i]);
        assert(db.turns[i].session_id == session_id);
    }
    let n = lines.len();
    let start = started(db);
    let t = start.after(session_id, lines, now, n);
    let end = t.finished(session_id);
    assert(t.failed is None);
    let next = lemma_kept(db, session_id, lines, now, n);
    lemma_asked(lines, n);
    lemma_words();
    let users = asked(lines, n);
    let begun = db.turns.len();
    if let Some(prompt) = t.pending {
        lemma_one_more(
            db,
            t,
            session_id,
            lines,
            now,
            n,
            next,
            prompt,
            CUT_SHORT@,
            None,
            None,
            "interrupted"@,
        );
        assert(end.db.turns.take(begun as int) =~= t.db.turns.take(begun as int));
    }
    let after = end.db;
    assert forall|k: int| 0 <= k < users.len() implies {
        let row = #[trigger] after.turns[begun + k];
        let u = users[k];
        &&& holds_line(row, session_id, lines, u)
        &&& row.seq == k + 1
        &&& forall|v: int|
            u < v < lines.len() && silent(lines, u, v) && (asks(#[trigger] lines[v]) || replies(
                lines[v],
            )) ==> holds_reply(row, lines, now, v)
        &&& silent(lines, u, lines.len() as int) ==> {
            &&& row.assistant_content == CUT_SHORT@
            &&& row.status == "interrupted"@
            &&& row.assistant_timestamp is None
        }
    } by {
        let row = after.turns[begun + k];
        let u = users[k];
        if k < t.migrated {
            assert(row == t.db.turns[begun + k]);
            assert(asks(lines[next[k]]) || replies(lines[next[k]]));
            assert forall|v: int|
                u < v < lines.len() && silent(lines, u, v) && (asks(#[trigger] lines[v])
                    || replies(lines[v])) implies holds_reply(row, lines, now, v) by {
                if v < next[k] {
                    assert(!asks(lines[v]));
                }
                if next[k] < v {
                    assert(!asks(lines[next[k]]));
                }
            }
        } else {
            assert(users[users.len() - 1] == users.last());
        }
    }
}

/// A session that has turns is left alone.
pub proof fn law_nothing_is_taken_over_twice(
    db: DbModel,
    session_id: Seq<char>,
    lines: Seq<Seq<char>>,
    now: Seq<char>,
    i: int,
)
    requires
        0 <= i < db.turns.len(),
        db.turns[i].session_id == session_id,
    ensures
        db.migrate_from_jsonl(session_id, lines, now) == (db, Ok::<nat, StateErrorModel>(0)),
{
    assert(turn_of(session_id)(db.turns[i]));
}

/// An id that no turn has yet.
proof fn lemma_new_id(
    db: DbModel,
    t: Takeover,
    session_id: Seq<char>,
    lines: Seq<Seq<char>>,
    now: Seq<char>,
    n: nat,
    next: Seq<int>,
)
    requires
        kept(db, t, session_id, lines, now, n, next),
        no_turn_taken_over(db),
    ensures
        !t.db.has_turn("migrated_"@ + decimal(t.migrated)),
{
    let id = "migrated_"@ + decimal(t.migrated);
    let p = with_turn_id(id);
    let begun = db.turns.len();
    if any(t.db.turns, p) {
        let i = choose|i: int| 0 <= i < t.db.turns.len() && p(#[trigger] t.db.turns[i]);
        if i < begun {
            assert(t.db.turns.take(begun as int)[i] == db.turns[i]);
            assert(db.turns[i].turn_id != id);
        } else {
            let k = i - begun;
            assert(t.db.turns[begun + k].turn_id == "migrated_"@ + decimal(k as nat));
            lemma_decimal_differs(k as nat, t.migrated);
            let a = "migrated_"@ + decimal(k as nat);
            assert(a.skip("migrated_"@.len() as int) =~= decimal(k as nat));
            assert(id.skip("migrated_"@.len() as int) =~= decimal(t.migrated));
        }
    }
}

/// Whether no turn has an id that a takeover gives.
pub open spec fn no_turn_taken_over(db: DbModel) -> bool {
    forall|i: int, k: nat|
        #![trigger db.turns[i], decimal(k)]
        0 <= i < db.turns.len() ==> db.turns[i].turn_id != "migrated_"@ + decimal(k)
}

proof fn lemma_never_fails(
    db: DbModel,
    session_id: Seq<char>,
    lines: Seq<Seq<char>>,
    now: Seq<char>,
    n: nat,
)
    requires
        !any(db.turns, turn_of(session_id)),
        no_turn_taken_over(db),
        n <= lines.len() < i64::MAX,
    ensures
        started(db).after(session_id, lines, now, n).failed is None,
    decreases n,
{
    if n > 0 {
        let m = (n - 1) as nat;
        lemma_never_fails(db, session_id, lines, now, m);
        let next = lemma_kept(db, session_id, lines, now, m);
        let t = started(db).after(session_id, lines, now, m);
        lemma_asked(lines, m);
        lemma_next_place(db, t, session_id);
        lemma_new_id(db, t, session_id, lines, now, m, next);
    }
}

/// An old conversation is taken over whatever its lines hold, where no turn has an
/// id that a takeover gives.
pub proof fn law_old_conversation_can_be_taken_over(
    db: DbModel,
    session_id: Seq<char>,
    lines: Seq<Seq<char>>,
    now: Seq<char>,
)
    requires
        no_turn_taken_over(db),
        lines.len() < i64::MAX,
    ensures
        db.migrate_from_jsonl(session_id, lines, now).1 is Ok,
{
    if !any(db.turns, turn_of(session_id)) {
        let n = lines.len();
        lemma_never_fails(db, session_id, lines, now, n);
        let next = lemma_kept(db, session_id, lines, now, n);
        let t = started(db).after(session_id, lines, now, n);
        lemma_asked(lines, n);
        lemma_next_place(db, t, session_id);
        lemma_new_id(db, t, session_id, lines, now, n, next);
    }
}

} // verus!
