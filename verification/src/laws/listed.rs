//! Laws of what is told of sessions: their lists, their names, their last turns,
//! their tools and what they have cost.

use crate::facts::lemma_filter_none;
use crate::laws::reading::{lemma_last_of_session, lemma_listing};
use crate::state::db::DbModel;
use crate::state::edits::{set_model_override, set_name, set_workspace};
use crate::state::error::StateErrorKind;
use crate::state::reset::{run_total, running_sum, subagent_of, turn_total};
use crate::state::rows::{SessionRowModel, TurnRowModel};
use crate::state::sessions::{
    binds_session, by_newest, by_seq, by_use, by_user_timestamp, folded, plain_turn,
    plain_turn_except, same_folded, with_session_id, USER_SESSION_KIND,
};
use crate::state::turns::{is_running, running_in, running_in_except, turn_of};
use crate::table::{any, lemma_order_by_len, order_by, orders};
use crate::text::precedes;
use crate::textset::{lemma_precedes_irreflexive, lemma_precedes_total, lemma_precedes_transitive};
use vstd::prelude::*;

verus! {

/// The order of texts, and the same order seen from behind.
pub proof fn lemma_text_order(a: Seq<char>, b: Seq<char>, c: Seq<char>)
    ensures
        precedes(a, b) ==> !precedes(b, a),
        !precedes(b, a) && !precedes(c, b) ==> !precedes(c, a),
{
    if precedes(a, b) && precedes(b, a) {
        lemma_precedes_transitive(a, b, a);
        lemma_precedes_irreflexive(a);
    }
    if !precedes(b, a) && !precedes(c, b) && precedes(c, a) {
        lemma_precedes_total(b, a);
        if a == b {
        } else {
            lemma_precedes_transitive(c, a, b);
        }
    }
}

proof fn lemma_newest_orders()
    ensures
        orders(by_newest()),
{
    let lt = by_newest();
    assert forall|a: SessionRowModel, b: SessionRowModel| #[trigger] lt(a, b) implies !lt(
        b,
        a,
    ) by {
        lemma_text_order(b.record.updated_at, a.record.updated_at, a.record.updated_at);
    }
    assert forall|a: SessionRowModel, b: SessionRowModel, c: SessionRowModel|
        !(#[trigger] lt(b, a)) && !(#[trigger] lt(c, b)) implies !lt(c, a) by {
        lemma_text_order(c.record.updated_at, b.record.updated_at, a.record.updated_at);
    }
}

proof fn lemma_use_orders()
    ensures
        orders(by_use()),
{
    let lt = by_use();
    assert forall|a: SessionRowModel, b: SessionRowModel| #[trigger] lt(a, b) implies !lt(
        b,
        a,
    ) by {
        lemma_text_order(b.record.updated_at, a.record.updated_at, a.record.updated_at);
    }
    assert forall|a: SessionRowModel, b: SessionRowModel, c: SessionRowModel|
        !(#[trigger] lt(b, a)) && !(#[trigger] lt(c, b)) implies !lt(c, a) by {
        lemma_text_order(c.record.updated_at, b.record.updated_at, a.record.updated_at);
    }
}

/// Whether a session is bound to a conversation of a platform.
pub open spec fn is_bound_session(db: DbModel, id: Seq<char>) -> bool {
    exists|i: int|
        0 <= i < db.bindings.len() && (#[trigger] db.bindings[i]).session_id == id
}

proof fn lemma_is_bound_session(db: DbModel, id: Seq<char>)
    ensures
        db.is_platform_session(id) == is_bound_session(db, id),
{
    let p = binds_session(id);
    if any(db.bindings, p) {
        let i = choose|i: int| 0 <= i < db.bindings.len() && p(#[trigger] db.bindings[i]);
        assert(db.bindings[i].session_id == id);
    }
    if is_bound_session(db, id) {
        let i = choose|i: int|
            0 <= i < db.bindings.len() && (#[trigger] db.bindings[i]).session_id == id;
        assert(p(db.bindings[i]));
    }
}

/// The list of a persona's sessions holds the record of each session that users
/// have with it, and of no other; where only local ones are wanted, of none that is
/// bound to a conversation of a platform. The one used last comes first.
pub proof fn law_sessions_are_listed(
    db: DbModel,
    persona: Seq<char>,
    local_only: bool,
    row: SessionRowModel,
)
    ensures
        ({
            let list = db.list_sessions(persona, local_only);
            let shown = row.record.persona == persona && row.record.kind == USER_SESSION_KIND@ && (
            local_only ==> !is_bound_session(db, row.record.session_id));
            &&& db.sessions.contains(row) && shown ==> exists|k: int|
                0 <= k < list.len() && (#[trigger] list[k]).record == row.record
            &&& forall|k: int|
                0 <= k < list.len() ==> {
                    let record = (#[trigger] list[k]).record;
                    &&& record.persona == persona
                    &&& record.kind == USER_SESSION_KIND@
                    &&& local_only ==> !is_bound_session(db, record.session_id)
                    &&& exists|i: int|
                        0 <= i < db.sessions.len() && (#[trigger] db.sessions[i]).record == record
                }
            &&& forall|a: int, b: int|
                0 <= a < b < list.len() ==> !precedes(
                    (#[trigger] list[a]).record.updated_at,
                    (#[trigger] list[b]).record.updated_at,
                )
        }),
{
    let p = db.listed(persona, local_only);
    let rows = order_by(db.sessions.filter(p), by_newest());
    let list = db.list_sessions(persona, local_only);
    lemma_newest_orders();
    lemma_listing(db.sessions, p, by_newest());
    lemma_is_bound_session(db, row.record.session_id);
    if db.sessions.contains(row) && p(row) {
        assert(rows.contains(row));
        let k = rows.index_of(row);
        assert(list[k].record == row.record);
    }
    assert forall|k: int| 0 <= k < list.len() implies {
        let record = (#[trigger] list[k]).record;
        &&& record.persona == persona
        &&& record.kind == USER_SESSION_KIND@
        &&& local_only ==> !is_bound_session(db, record.session_id)
        &&& exists|i: int|
            0 <= i < db.sessions.len() && (#[trigger] db.sessions[i]).record == record
    } by {
        assert(rows.contains(rows[k]));
        lemma_is_bound_session(db, rows[k].record.session_id);
        let i = db.sessions.index_of(rows[k]);
        assert(db.sessions[i].record == list[k].record);
    }
    assert forall|a: int, b: int| 0 <= a < b < list.len() implies !precedes(
        (#[trigger] list[a]).record.updated_at,
        (#[trigger] list[b]).record.updated_at,
    ) by {
        assert(!by_newest()(rows[b], rows[a]));
    }
}

/// What is told of a session beside its record: how many of its turns its users
/// see, and how the last of them was asked.
pub proof fn law_overview_tells_the_last_prompt(db: DbModel, row: SessionRowModel, i: int)
    requires
        0 <= i < db.turns.len(),
        db.turns[i].session_id == row.record.session_id,
        !db.turns[i].hidden,
        !db.turns[i].is_summary,
        forall|k: int|
            0 <= k < db.turns.len() && k != i && (#[trigger] db.turns[k]).session_id
                == row.record.session_id && !db.turns[k].hidden && !db.turns[k].is_summary
                ==> db.turns[k].seq < db.turns[i].seq,
    ensures
        ({
            let told = db.overview()(row);
            &&& told.record == row.record
            &&& told.last_user_content == Some(db.turns[i].display_content)
            &&& told.turn_count == db.turns.filter(
                |r: TurnRowModel|
                    r.session_id == row.record.session_id && !r.hidden && !r.is_summary,
            ).len() as usize
        }),
{
    assert(plain_turn(row.record.session_id) =~= |r: TurnRowModel|
        r.session_id == row.record.session_id && !r.hidden && !r.is_summary);
    lemma_last_of_session(db, plain_turn(row.record.session_id), i);
}

/// Whether two names differ in the case of plain letters at most.
pub open spec fn same_name(a: Seq<char>, b: Seq<char>) -> bool {
    a.len() == b.len() && forall|i: int|
        0 <= i < a.len() ==> {
            ||| #[trigger] a[i] == b[i]
            ||| 'A' <= a[i] <= 'Z' && b[i] as int == a[i] as int + 32
            ||| 'A' <= b[i] <= 'Z' && a[i] as int == b[i] as int + 32
        }
}

proof fn lemma_same_name(a: Seq<char>, b: Seq<char>)
    ensures
        same_folded(a, b) == same_name(a, b),
{
    if a.len() == b.len() {
        assert forall|i: int| 0 <= i < a.len() implies (folded(#[trigger] a[i]) == folded(b[i])
            <==> {
            ||| a[i] == b[i]
            ||| 'A' <= a[i] <= 'Z' && b[i] as int == a[i] as int + 32
            ||| 'A' <= b[i] <= 'Z' && a[i] as int == b[i] as int + 32
        }) by {
            lemma_folded(a[i]);
            lemma_folded(b[i]);
        }
    }
}

proof fn lemma_folded(c: char)
    ensures
        'A' <= c <= 'Z' ==> folded(c) as int == c as int + 32,
        !('A' <= c <= 'Z') ==> folded(c) == c,
{
    if 'A' <= c <= 'Z' {
        let n = c as u32 + 32;
        assert(97 <= n <= 122);
        assert(folded(c) == n as char);
        assert(n as char as int == n);
    }
}

/// A session is found by its name, in either case, among those of its persona; no
/// session is found where none has the name. Of several, one that is not archived
/// comes before one that is, and among those the one used last.
pub proof fn law_session_is_found_by_name(
    db: DbModel,
    persona: Seq<char>,
    name: Seq<char>,
    local_only: bool,
    row: SessionRowModel,
)
    requires
        db.sessions.contains(row),
        row.record.persona == persona,
        row.record.kind == USER_SESSION_KIND@,
        local_only ==> !is_bound_session(db, row.record.session_id),
        same_name(row.record.name, name),
    ensures
        db.find_session_by_name(persona, name, local_only) matches Some(found) && {
            &&& found.persona == persona
            &&& found.kind == USER_SESSION_KIND@
            &&& same_name(found.name, name)
            &&& local_only ==> !is_bound_session(db, found.session_id)
            &&& exists|i: int|
                0 <= i < db.sessions.len() && (#[trigger] db.sessions[i]).record == found
            &&& !row.record.archived ==> !found.archived
            &&& found.archived == row.record.archived ==> !precedes(
                found.updated_at,
                row.record.updated_at,
            )
        },
{
    let p = db.listed_as(persona, name, local_only);
    let rows = order_by(db.sessions.filter(p), by_use());
    lemma_use_orders();
    lemma_listing(db.sessions, p, by_use());
    lemma_same_name(row.record.name, name);
    lemma_is_bound_session(db, row.record.session_id);
    assert(p(row));
    assert(rows.contains(row));
    let k = rows.index_of(row);
    let found = rows[0];
    assert(rows.contains(found));
    lemma_same_name(found.record.name, name);
    lemma_is_bound_session(db, found.record.session_id);
    let i = db.sessions.index_of(found);
    assert(db.sessions[i].record == found.record);
    if k > 0 {
        assert(!by_use()(rows[k], rows[0]));
    } else {
        lemma_precedes_irreflexive(row.record.updated_at);
    }
}

/// No session is found by a name that none has.
pub proof fn law_unknown_name_finds_nothing(
    db: DbModel,
    persona: Seq<char>,
    name: Seq<char>,
    local_only: bool,
)
    requires
        forall|i: int|
            0 <= i < db.sessions.len() ==> (#[trigger] db.sessions[i]).record.persona != persona
                || db.sessions[i].record.kind != USER_SESSION_KIND@ || !same_name(
                db.sessions[i].record.name,
                name,
            ),
    ensures
        db.find_session_by_name(persona, name, local_only) is None,
{
    let p = db.listed_as(persona, name, local_only);
    if any(db.sessions, p) {
        let i = choose|i: int| 0 <= i < db.sessions.len() && p(#[trigger] db.sessions[i]);
        lemma_same_name(db.sessions[i].record.name, name);
    }
    lemma_filter_none(db.sessions, p);
    lemma_order_by_len(db.sessions.filter(p), by_use());
}

/// A session that was made has the name, the kind and the parent that it was given,
/// is open, was made and used now, has cost nothing and has no model of its own.
/// The other sessions stay as they are.
pub proof fn law_made_session_is_as_asked(
    db: DbModel,
    id: Seq<char>,
    persona: Seq<char>,
    name: Seq<char>,
    kind: Seq<char>,
    parent: Option<Seq<char>>,
    now: Seq<char>,
)
    ensures
        db.has_session(id) ==> (db.create_session(
            id,
            persona,
            name,
            kind,
            parent,
            now,
        ) matches Err(error) && error.kind == StateErrorKind::UniqueViolation),
        !db.has_session(id) ==> (db.create_session(
            id,
            persona,
            name,
            kind,
            parent,
            now,
        ) matches Ok((after, record)) && {
            let row = after.sessions.last();
            &&& after.sessions.len() == db.sessions.len() + 1
            &&& after.sessions.drop_last() == db.sessions
            &&& after == (DbModel { sessions: after.sessions, ..db })
            &&& row.record == record
            &&& record.session_id == id
            &&& record.persona == persona
            &&& record.name == name
            &&& record.kind == kind
            &&& record.parent_session_id == parent
            &&& record.workspace is None
            &&& !record.archived
            &&& record.created_at == now
            &&& record.updated_at == now
            &&& row.model_override is None
            &&& row.last_request_at is None
            &&& row.total_tokens == 0
            &&& row.prompt_tokens == 0
        }),
{
    if !db.has_session(id) {
        let after = db.create_session(id, persona, name, kind, parent, now)->Ok_0.0;
        assert(after.sessions.drop_last() =~= db.sessions);
    }
}

/// A change of a session's name, workspace or models changes that, and nothing
/// else, and fails exactly where there is no such session. Using a session notes
/// when that was.
pub proof fn law_session_is_changed_as_asked(
    db: DbModel,
    id: Seq<char>,
    name: Seq<char>,
    workspace: Option<Seq<char>>,
    models: Option<Seq<char>>,
    now: Seq<char>,
    i: int,
)
    requires
        0 <= i < db.sessions.len(),
    ensures
        ({
            let was = db.sessions[i];
            let mine = was.record.session_id == id;
            let renamed = db.with_session_changed(id, set_name(name));
            let moved = db.with_session_changed(id, set_workspace(workspace));
            let equipped = db.with_session_changed(id, set_model_override(models));
            let touched = db.touch_session(id, now);
            &&& mine ==> renamed is Ok && moved is Ok && equipped is Ok
            &&& renamed matches Ok((after, _)) ==> {
                let row = after.sessions[i];
                &&& after.sessions.len() == db.sessions.len()
                &&& after == (DbModel { sessions: after.sessions, ..db })
                &&& !mine ==> row == was
                &&& mine ==> row.record.name == name && row == (SessionRowModel {
                    record: row.record,
                    ..was
                }) && row.record.session_id == id && row.record.persona == was.record.persona
                    && row.record.kind == was.record.kind && row.record.archived
                    == was.record.archived && row.record.workspace == was.record.workspace
                    && row.record.parent_session_id == was.record.parent_session_id
            }
            &&& moved matches Ok((after, _)) ==> {
                let row = after.sessions[i];
                &&& after.sessions.len() == db.sessions.len()
                &&& after == (DbModel { sessions: after.sessions, ..db })
                &&& !mine ==> row == was
                &&& mine ==> row.record.workspace == workspace && row.record.name
                    == was.record.name && row.record.session_id == id && row.record.persona
                    == was.record.persona && row.model_override == was.model_override
            }
            &&& equipped matches Ok((after, _)) ==> {
                let row = after.sessions[i];
                &&& after.sessions.len() == db.sessions.len()
                &&& after == (DbModel { sessions: after.sessions, ..db })
                &&& !mine ==> row == was
                &&& mine ==> row.model_override == models && row.record == was.record
            }
            &&& touched.sessions.len() == db.sessions.len()
            &&& touched == (DbModel { sessions: touched.sessions, ..db })
            &&& !mine ==> touched.sessions[i] == was
            &&& mine ==> touched.sessions[i].record.updated_at == now
                && touched.sessions[i].record.name == was.record.name
                && touched.sessions[i].record.session_id == id
                && touched.sessions[i].record.created_at == was.record.created_at
                && touched.sessions[i].record.persona == was.record.persona
        }),
{
    if db.sessions[i].record.session_id == id {
        assert(with_session_id(id)(db.sessions[i]));
    }
}

/// A session that does not exist cannot be changed.
pub proof fn law_unknown_session_is_not_changed(
    db: DbModel,
    id: Seq<char>,
    change: spec_fn(SessionRowModel) -> SessionRowModel,
)
    requires
        forall|i: int|
            0 <= i < db.sessions.len() ==> (#[trigger] db.sessions[i]).record.session_id != id,
    ensures
        db.with_session_changed(id, change) matches Err(error) && error.kind
            == StateErrorKind::SessionNotFound && error.subject == id,
        db.delete_session(id) matches Err(error) && error.kind == StateErrorKind::SessionNotFound
            && error.subject == id,
{
    let p = with_session_id(id);
    if any(db.sessions, p) {
        let i = choose|i: int| 0 <= i < db.sessions.len() && p(#[trigger] db.sessions[i]);
        assert(db.sessions[i].record.session_id == id);
    }
}

/// A persona adopts the sessions that have none, and no others.
pub proof fn law_sessions_without_persona_are_adopted(db: DbModel, persona: Seq<char>, i: int)
    requires
        0 <= i < db.sessions.len(),
    ensures
        ({
            let after = db.adopted_by(persona);
            let was = db.sessions[i];
            &&& after.sessions.len() == db.sessions.len()
            &&& after == (DbModel { sessions: after.sessions, ..db })
            &&& was.record.persona.len() > 0 ==> after.sessions[i] == was
            &&& was.record.persona.len() == 0 ==> {
                &&& after.sessions[i].record.persona == persona
                &&& after.sessions[i].record.session_id == was.record.session_id
                &&& after.sessions[i].record.name == was.record.name
                &&& after.sessions[i].record.kind == was.record.kind
            }
        }),
{
    if db.sessions[i].record.persona.len() == 0 {
        assert(db.sessions[i].record.persona =~= Seq::<char>::empty());
    }
}

/// The sum of some numbers.
pub open spec fn sum_of(numbers: Seq<i64>) -> int
    decreases numbers.len(),
{
    if numbers.len() == 0 {
        0
    } else {
        sum_of(numbers.drop_last()) + numbers.last()
    }
}

proof fn lemma_running_sum(numbers: Seq<i64>)
    requires
        forall|i: int| 0 <= i < numbers.len() ==> #[trigger] numbers[i] >= 0,
        sum_of(numbers) <= i64::MAX,
    ensures
        running_sum(numbers) == Some(sum_of(numbers) as i64),
        sum_of(numbers) >= 0,
    decreases numbers.len(),
{
    if numbers.len() > 0 {
        let rest = numbers.drop_last();
        assert forall|i: int| 0 <= i < rest.len() implies #[trigger] rest[i] >= 0 by {
            assert(rest[i] == numbers[i]);
        }
        assert(numbers[numbers.len() - 1] >= 0);
        lemma_sum_nonnegative(rest);
        lemma_running_sum(rest);
    }
}

proof fn lemma_sum_nonnegative(numbers: Seq<i64>)
    requires
        forall|i: int| 0 <= i < numbers.len() ==> #[trigger] numbers[i] >= 0,
    ensures
        sum_of(numbers) >= 0,
    decreases numbers.len(),
{
    if numbers.len() > 0 {
        let rest = numbers.drop_last();
        assert forall|i: int| 0 <= i < rest.len() implies #[trigger] rest[i] >= 0 by {
            assert(rest[i] == numbers[i]);
        }
        assert(numbers[numbers.len() - 1] >= 0);
        lemma_sum_nonnegative(rest);
    }
}

/// What a session has cost is what all of its turns have cost, whether in view or
/// not, and what its helpers have cost.
pub proof fn law_cost_is_the_sum(db: DbModel, session_id: Seq<char>)
    requires
        ({
            let turns = db.turns.filter(|r: TurnRowModel| r.session_id == session_id);
            let helpers = db.sessions.filter(
                |r: SessionRowModel|
                    r.record.parent_session_id == Some(session_id) && r.record.kind
                        == "subagent"@,
            );
            &&& sum_of(turns.map_values(|r: TurnRowModel| r.token_total)) + sum_of(
                helpers.map_values(|r: SessionRowModel| r.total_tokens),
            ) <= i64::MAX
            &&& forall|i: int|
                0 <= i < turns.len() ==> (#[trigger] turns[i]).token_total >= 0
            &&& forall|i: int|
                0 <= i < helpers.len() ==> (#[trigger] helpers[i]).total_tokens >= 0
        }),
        db.token_totals(session_id) is Ok,
    ensures
        ({
            let turns = db.turns.filter(|r: TurnRowModel| r.session_id == session_id);
            let helpers = db.sessions.filter(
                |r: SessionRowModel|
                    r.record.parent_session_id == Some(session_id) && r.record.kind
                        == "subagent"@,
            );
            db.token_totals(session_id)->Ok_0.total == sum_of(
                turns.map_values(|r: TurnRowModel| r.token_total),
            ) + sum_of(helpers.map_values(|r: SessionRowModel| r.total_tokens))
        }),
{
    let p = |r: TurnRowModel| r.session_id == session_id;
    let q = |r: SessionRowModel|
        r.record.parent_session_id == Some(session_id) && r.record.kind == "subagent"@;
    assert(turn_of(session_id) =~= p);
    assert(subagent_of(session_id) =~= q);
    let turns = db.turns.filter(p);
    let helpers = db.sessions.filter(q);
    let spent = turns.map_values(|r: TurnRowModel| r.token_total);
    let helped = helpers.map_values(|r: SessionRowModel| r.total_tokens);
    assert(spent =~= turns.map_values(turn_total()));
    assert(helped =~= helpers.map_values(run_total()));
    assert forall|i: int| 0 <= i < spent.len() implies #[trigger] spent[i] >= 0 by {
        assert(turns[i].token_total >= 0);
    }
    assert forall|i: int| 0 <= i < helped.len() implies #[trigger] helped[i] >= 0 by {
        assert(helpers[i].total_tokens >= 0);
    }
    lemma_sum_nonnegative(spent);
    lemma_sum_nonnegative(helped);
    lemma_running_sum(spent);
    lemma_running_sum(helped);
}

/// The oldest time at which a turn in view was asked, other than one turn.
pub proof fn law_oldest_time_is_told(
    db: DbModel,
    session_id: Seq<char>,
    except: Seq<char>,
    i: int,
)
    requires
        0 <= i < db.turns.len(),
        db.turns[i].session_id == session_id,
        !db.turns[i].hidden,
        !db.turns[i].is_summary,
        db.turns[i].turn_id != except,
    ensures
        db.oldest_visible_turn_timestamp(session_id, except) matches Some(time) && {
            &&& !precedes(db.turns[i].user_timestamp, time)
            &&& exists|k: int|
                0 <= k < db.turns.len() && (#[trigger] db.turns[k]).user_timestamp == time
                    && db.turns[k].session_id == session_id && !db.turns[k].hidden
                    && db.turns[k].turn_id != except
        },
{
    let p = plain_turn_except(session_id, except);
    let lt = by_user_timestamp();
    assert(orders(lt)) by {
        assert forall|a: TurnRowModel, b: TurnRowModel| #[trigger] lt(a, b) implies !lt(b, a) by {
            lemma_text_order(a.user_timestamp, b.user_timestamp, b.user_timestamp);
        }
        assert forall|a: TurnRowModel, b: TurnRowModel, c: TurnRowModel|
            !(#[trigger] lt(b, a)) && !(#[trigger] lt(c, b)) implies !lt(c, a) by {
            lemma_text_order(a.user_timestamp, b.user_timestamp, c.user_timestamp);
        }
    }
    let rows = order_by(db.turns.filter(p), lt);
    lemma_listing(db.turns, p, lt);
    let row = db.turns[i];
    assert(db.turns.contains(row));
    assert(rows.contains(row));
    let k = rows.index_of(row);
    assert(rows.contains(rows[0]));
    let j = db.turns.index_of(rows[0]);
    assert(db.turns[j] == rows[0]);
    if k > 0 {
        assert(!lt(rows[k], rows[0]));
    } else {
        lemma_precedes_irreflexive(row.user_timestamp);
    }
}

/// What a running turn was asked is told of each that runs in the session, in their
/// order, and of no other.
pub proof fn law_running_turns_are_told(
    db: DbModel,
    session_id: Seq<char>,
    except: Seq<char>,
    i: int,
)
    requires
        0 <= i < db.turns.len(),
    ensures
        ({
            let row = db.turns[i];
            let runs = row.session_id == session_id && row.status == "running"@;
            &&& runs ==> db.running_summaries(running_in(session_id)).contains(row.user_content)
            &&& runs && row.turn_id != except ==> db.running_summaries(
                running_in_except(session_id, except),
            ).contains(row.user_content)
            &&& runs ==> any(db.turns, running_in(session_id)) && any(
                db.turns,
                is_running(),
            )
            &&& db.running_summaries(running_in(session_id)).len() == db.turns.filter(
                |r: TurnRowModel| r.session_id == session_id && r.status == "running"@,
            ).len()
            &&& db.running_summaries(
                running_in_except(session_id, except),
            ).len() == db.turns.filter(
                |r: TurnRowModel|
                    r.session_id == session_id && r.status == "running"@ && r.turn_id != except,
            ).len()
        }),
{
    let row = db.turns[i];
    assert(db.turns.contains(row));
    let p = running_in(session_id);
    assert(p =~= |r: TurnRowModel| r.session_id == session_id && r.status == "running"@);
    lemma_listing(db.turns, p, by_seq());
    let rows = order_by(db.turns.filter(p), by_seq());
    if p(row) {
        assert(is_running()(db.turns[i]));
        assert(p(db.turns[i]));
        assert(rows.contains(row));
        let k = rows.index_of(row);
        assert(db.running_summaries(p)[k] == row.user_content);
    }
    let q = running_in_except(session_id, except);
    assert(q =~= |r: TurnRowModel|
        r.session_id == session_id && r.status == "running"@ && r.turn_id != except);
    lemma_listing(db.turns, q, by_seq());
    let others = order_by(db.turns.filter(q), by_seq());
    if q(row) {
        assert(others.contains(row));
        let k = others.index_of(row);
        assert(db.running_summaries(q)[k] == row.user_content);
    }
}

/// A prompt for a session is sent to the turn that runs there, or to the latest of
/// them, by its queue and its process. Where none runs there is no such turn.
pub proof fn law_prompts_go_to_the_running_turn(db: DbModel, session_id: Seq<char>, i: int)
    requires
        0 <= i < db.turns.len(),
        db.turns[i].session_id == session_id,
        db.turns[i].status == "running"@,
        forall|k: int|
            0 <= k < db.turns.len() && k != i && (#[trigger] db.turns[k]).session_id == session_id
                && db.turns[k].status == "running"@ ==> db.turns[k].seq < db.turns[i].seq,
    ensures
        db.running_turn_queue_target(session_id) matches Some(target) && {
            &&& target.0 == db.turns[i].turn_id
            &&& db.turns[i].queue_session_id is Some ==> target.1 == db.turns[i].queue_session_id
            &&& db.turns[i].owner_pid matches Some(pid) ==> (0 <= pid <= u32::MAX ==> target.2
                == Some(pid as u32))
            &&& db.turns[i].owner_pid is None ==> target.2 is None
        },
{
    lemma_last_of_session(db, running_in(session_id), i);
}

/// Where no turn of a session is running, prompts have nowhere to go.
pub proof fn law_no_running_turn_no_target(db: DbModel, session_id: Seq<char>)
    requires
        forall|k: int|
            0 <= k < db.turns.len() && (#[trigger] db.turns[k]).session_id == session_id
                ==> db.turns[k].status != "running"@,
    ensures
        db.running_turn_queue_target(session_id) is None,
        !any(db.turns, running_in(session_id)),
{
    let p = running_in(session_id);
    if any(db.turns, p) {
        let k = choose|k: int| 0 <= k < db.turns.len() && p(#[trigger] db.turns[k]);
        assert(db.turns[k].status == "running"@);
    }
    lemma_filter_none(db.turns, p);
    lemma_order_by_len(db.turns.filter(p), by_seq());
}

/// The place of the latest turn of a session is the largest.
pub proof fn law_latest_place_is_the_largest(db: DbModel, session_id: Seq<char>, i: int)
    requires
        0 <= i < db.turns.len(),
        db.turns[i].session_id == session_id,
        forall|k: int|
            0 <= k < db.turns.len() && k != i && (#[trigger] db.turns[k]).session_id == session_id
                ==> db.turns[k].seq < db.turns[i].seq,
    ensures
        db.latest_turn_seq(session_id) == db.turns[i].seq,
        db.turns[i].seq < i64::MAX ==> db.next_seq(session_id) == Some(
            (db.turns[i].seq + 1) as i64,
        ),
        db.turns[i].seq == i64::MAX ==> db.next_seq(session_id) is None,
{
    lemma_last_of_session(db, turn_of(session_id), i);
}

} // verus!
