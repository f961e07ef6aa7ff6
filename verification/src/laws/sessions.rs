//! Laws of sessions, personas and the pointers to sessions.

use crate::facts::{
    changed, lemma_any_filter, lemma_any_push, lemma_changed_filter, lemma_filter_change,
    lemma_filter_contains, lemma_filter_none, lemma_first, lemma_first_kept, lemma_first_push,
    lemma_map_change, lemma_order_change, lemma_put_first, lemma_put_other, lemma_rejected,
};
use crate::language::Language;
use crate::state::cascade::{
    binding_of_sessions, item_of_sessions, session_id_of, turn_id_of, turn_in_sessions,
};
use crate::state::checkpoint::item_of;
use crate::state::compact::{pruned, set_hidden, turn_among, turn_up_to};
use crate::state::db::DbModel;
use crate::state::error::{StateErrorKind, StateErrorModel};
use crate::state::keys::lemma_unique_at;
use crate::state::reset::{
    both, run_cache, run_prompt, run_total, subagent_of, turn_cache, turn_prompt, turn_total,
};
use crate::state::rows::{AppStateRowModel, SessionRowModel, TurnRowModel};
use crate::state::sessions::{
    binding_persona, binds_as, binds_session, bound_under_both, by_newest, new_session,
    open_user_session, prompt_of_session,
    real_context_key, set_binding_persona, set_key, set_persona, set_plugin_key, set_value,
    terminal_session, with_key, with_persona, with_session_id, CURRENT_SESSION_POINTER,
    DEFAULT_SESSION_ID, USER_SESSION_KIND,
};
use crate::state::turns::turn_of;
use crate::state::types::{SessionOverviewModel, TurnTokensModel};
use crate::table::{any, change_where, count, first, not};
use crate::text::before;
use vstd::prelude::*;

verus! {

/// What was recorded under a key is read back, and every other key keeps its
/// value.
pub proof fn law_app_value(
    db: DbModel,
    key: Seq<char>,
    value: Seq<char>,
    other: Seq<char>,
)
    ensures
        db.with_app_value(key, value).app_value(key) == Some(value),
        other != key ==> db.with_app_value(key, value).app_value(other) == db.app_value(other),
{
    let v = AppStateRowModel { key, value };
    lemma_put_first(db.app_state, with_key(key), set_value(value), v);
    lemma_first(db.app_state, with_key(key));
    if other != key {
        lemma_put_other(db.app_state, with_key(key), set_value(value), v, with_key(other));
    }
}

/// A pointer leads where it was set, as long as that is an open user session of
/// the persona; where it is not, it leads nowhere.
pub proof fn law_pointer_set_then_followed(
    db: DbModel,
    prefix: Seq<char>,
    persona: Seq<char>,
    session_id: Seq<char>,
)
    ensures
        db.with_pointer(prefix, persona, session_id).pointed_session(prefix, persona) == if any(
            db.sessions,
            open_user_session(session_id, persona),
        ) {
            Some(session_id)
        } else {
            None::<Seq<char>>
        },
{
    let key = prefix + ":"@ + persona;
    law_app_value(db, key, session_id, key);
}

/// A persona's current session, once set, is that session exactly where there is
/// a record of it as an open user session of the persona.
pub proof fn law_pointer_follows_the_record(
    db: DbModel,
    prefix: Seq<char>,
    persona: Seq<char>,
    session_id: Seq<char>,
)
    requires
        db.well_formed(),
    ensures
        ({
            let after = db.with_pointer(prefix, persona, session_id);
            &&& after.pointed_session(prefix, persona) == Some(session_id) <==> (
            after.session_record(session_id) matches Some(record) && {
                &&& record.persona == persona
                &&& record.kind == USER_SESSION_KIND@
                &&& !record.archived
            })
            &&& after.pointed_session(prefix, persona) is Some ==> after.pointed_session(
                prefix,
                persona,
            ) == Some(session_id)
            &&& after.session_record(session_id) == db.session_record(session_id)
        }),
{
    law_pointer_set_then_followed(db, prefix, persona, session_id);
    let p = open_user_session(session_id, persona);
    let q = with_session_id(session_id);
    lemma_first(db.sessions, q);
    if any(db.sessions, p) {
        let i = choose|i: int| 0 <= i < db.sessions.len() && p(#[trigger] db.sessions[i]);
        assert(q(db.sessions[i]));
        let row = first(db.sessions, q)->0;
        lemma_unique_at(db.sessions, session_id_of(), i, db.sessions.index_of(row));
    }
    if let Some(row) = first(db.sessions, q) {
        if p(row) {
            assert(p(db.sessions[db.sessions.index_of(row)]));
        }
    }
}

/// The current session is the one that was last made current, and a request for
/// an unknown session changes nothing.
pub proof fn law_current_session_is_last_set(db: DbModel, id: Seq<char>)
    ensures
        db.has_session(id) ==> {
            &&& db.set_current_session(id) is Ok
            &&& db.set_current_session(id)->Ok_0.0.current_session() == Some(id)
        },
        !db.has_session(id) ==> db.set_current_session(id) == Err::<(DbModel, ()), StateErrorModel>(
            StateErrorModel::about(StateErrorKind::SessionNotFound, id),
        ),
{
    law_app_value(db, "current_session"@, id, id);
}

/// There is always a current session once it was asked for: it exists, and
/// asking again gives the same and changes nothing.
pub proof fn law_current_session_resolved(
    db: DbModel,
    now: Seq<char>,
    later: Seq<char>,
    language: Language,
)
    ensures
        ({
            let (resolved, id) = db.resolve_current_session(now, language);
            &&& resolved.has_session(id)
            &&& resolved.current_session() == Some(id)
            &&& resolved.resolve_current_session(later, language) == (resolved, id)
        }),
{
    let row = new_session(
        DEFAULT_SESSION_ID@,
        Seq::empty(),
        terminal_session(language),
        USER_SESSION_KIND@,
        None,
        now,
    );
    let made = DbModel { sessions: db.sessions.push(row), ..db };
    lemma_any_push(db.sessions, row, with_session_id(DEFAULT_SESSION_ID@));
    law_app_value(db, "current_session"@, DEFAULT_SESSION_ID@, DEFAULT_SESSION_ID@);
    law_app_value(made, "current_session"@, DEFAULT_SESSION_ID@, DEFAULT_SESSION_ID@);
}

/// A session that was made is there, under its persona and name.
pub proof fn law_created_session_found(
    db: DbModel,
    id: Seq<char>,
    persona: Seq<char>,
    name: Seq<char>,
    kind: Seq<char>,
    parent: Option<Seq<char>>,
    now: Seq<char>,
)
    requires
        !db.has_session(id),
    ensures
        ({
            let made = db.create_session(id, persona, name, kind, parent, now);
            &&& made is Ok
            &&& made->Ok_0.0.session_record(id) == Some(made->Ok_0.1)
            &&& made->Ok_0.1.persona == persona
            &&& made->Ok_0.1.name == name
        }),
{
    let row = new_session(id, persona, name, kind, parent, now);
    lemma_first_push(db.sessions, row, with_session_id(id));
}

proof fn lemma_prefix_injective(prefix: Seq<char>, a: Seq<char>, b: Seq<char>)
    requires
        prefix + a == prefix + b,
    ensures
        a == b,
{
    assert((prefix + a).skip(prefix.len() as int) =~= a);
    assert((prefix + b).skip(prefix.len() as int) =~= b);
}

/// Renaming a persona moves all of its sessions and bindings and its current
/// session to the new name, and leaves nothing under the old one.
pub proof fn law_persona_renamed(db: DbModel, from: Seq<char>, to: Seq<char>)
    requires
        from != to,
        db.rename_persona_scope(from, to) is Ok,
    ensures
        ({
            let after = db.rename_persona_scope(from, to)->Ok_0.0;
            let pointer = CURRENT_SESSION_POINTER@;
            &&& !any(after.sessions, with_persona(from))
            &&& !any(after.bindings, binding_persona(from))
            &&& count(after.sessions, with_persona(to)) == count(db.sessions, with_persona(from))
            &&& after.session_ids() == db.session_ids()
            &&& after.pointed_session(pointer, from) is None
            &&& after.pointed_session(pointer, to) == db.pointed_session(pointer, from)
        }),
{
    let after = db.rename_persona_scope(from, to)->Ok_0.0;
    let pointer = CURRENT_SESSION_POINTER@;
    let old_key = pointer + ":"@ + from;
    let new_key = pointer + ":"@ + to;
    if old_key == new_key {
        lemma_prefix_injective(pointer + ":"@, from, to);
    }
    lemma_gone_after_change(db.sessions, with_persona(from), set_persona(to));
    lemma_gone_after_change(db.bindings, binding_persona(from), set_binding_persona(to));
    lemma_gone_after_change(db.app_state, with_key(old_key), set_key(new_key));
    lemma_moved(db.sessions, with_persona(from), with_persona(to), set_persona(to));
    lemma_map_change(db.sessions, with_persona(from), set_persona(to), session_id_of());
    lemma_first(after.app_state, with_key(old_key));
    lemma_moved_first(db.app_state, with_key(old_key), with_key(new_key), set_key(new_key));
    if let Some(id) = db.app_value(old_key) {
        let p = open_user_session(id, from);
        let q = open_user_session(id, to);
        if any(db.sessions, p) {
            let i = choose|i: int| 0 <= i < db.sessions.len() && p(#[trigger] db.sessions[i]);
            assert(q(after.sessions[i]));
        }
        if any(after.sessions, q) {
            let i = choose|i: int| 0 <= i < after.sessions.len() && q(#[trigger] after.sessions[i]);
            if !with_persona(from)(db.sessions[i]) {
                assert(with_persona(to)(db.sessions[i]));
            }
            assert(p(db.sessions[i]));
        }
    }
}

/// The ids in a list of sessions.
pub open spec fn listed_id() -> spec_fn(SessionOverviewModel) -> Seq<char> {
    |o: SessionOverviewModel| o.record.session_id
}

/// After a persona was renamed, the list of the new name shows the sessions that
/// the list of the old name showed, in the same order, and that of the old name
/// shows none.
pub proof fn law_renamed_persona_keeps_its_sessions(
    db: DbModel,
    from: Seq<char>,
    to: Seq<char>,
    local_only: bool,
)
    requires
        from != to,
        db.rename_persona_scope(from, to) is Ok,
    ensures
        ({
            let after = db.rename_persona_scope(from, to)->Ok_0.0;
            &&& after.list_sessions(from, local_only).len() == 0
            &&& after.list_sessions(to, local_only).map_values(listed_id()) == db.list_sessions(
                from,
                local_only,
            ).map_values(listed_id())
        }),
{
    let after = db.rename_persona_scope(from, to)->Ok_0.0;
    let p = with_persona(from);
    let f = set_persona(to);
    let before = db.listed(from, local_only);
    let now = after.listed(to, local_only);
    assert forall|id: Seq<char>| #[trigger] after.is_platform_session(id)
        == db.is_platform_session(id) by {
        let q = binds_session(id);
        if any(db.bindings, q) {
            let i = choose|i: int| 0 <= i < db.bindings.len() && q(#[trigger] db.bindings[i]);
            assert(q(after.bindings[i]));
        }
        if any(after.bindings, q) {
            let i = choose|i: int| 0 <= i < after.bindings.len() && q(#[trigger] after.bindings[i]);
            assert(q(db.bindings[i]));
        }
    }
    assert forall|i: int| 0 <= i < db.sessions.len() implies now(
        changed(p, f, #[trigger] db.sessions[i]),
    ) == before(db.sessions[i]) by {
        let r = db.sessions[i];
        if !p(r) && r.record.persona == to {
            assert(with_persona(to)(r));
        }
        assert(after.is_platform_session(r.record.session_id) == db.is_platform_session(
            r.record.session_id,
        ));
    }
    lemma_changed_filter(db.sessions, p, f, before, now);
    let mine = db.sessions.filter(before);
    lemma_order_change(mine, by_newest(), p, f);
    assert(after.list_sessions(to, local_only).map_values(listed_id()) =~= db.list_sessions(
        from,
        local_only,
    ).map_values(listed_id()));
    let none = after.listed(from, local_only);
    lemma_gone_after_change(db.sessions, p, f);
    if any(after.sessions, none) {
        let i = choose|i: int| 0 <= i < after.sessions.len() && none(#[trigger] after.sessions[i]);
        assert(p(after.sessions[i]));
    }
    lemma_filter_none(after.sessions, none);
}

proof fn lemma_changed_back<V>(
    s: Seq<V>,
    p: spec_fn(V) -> bool,
    f: spec_fn(V) -> V,
    q: spec_fn(V) -> bool,
    g: spec_fn(V) -> V,
)
    requires
        !any(s, q),
        forall|v: V| p(v) ==> q(#[trigger] f(v)) && g(f(v)) == v,
    ensures
        change_where(change_where(s, p, f), q, g) == s,
{
    let t = change_where(s, p, f);
    assert forall|i: int| 0 <= i < s.len() implies #[trigger] change_where(t, q, g)[i] == s[i] by {
        if q(s[i]) {
            assert(any(s, q));
        }
        if p(s[i]) {
            assert(q(f(s[i])));
        }
    }
    assert(change_where(t, q, g) =~= s);
}

proof fn lemma_not_bound(db: DbModel, from: Seq<char>, to: Seq<char>)
    requires
        !any(db.bindings, binding_persona(to)),
    ensures
        !any(db.bindings, bound_under_both(db.bindings, from, to)),
{
    let p = bound_under_both(db.bindings, from, to);
    if any(db.bindings, p) {
        let i = choose|i: int| 0 <= i < db.bindings.len() && p(#[trigger] db.bindings[i]);
        let q = binds_as(set_binding_persona(to)(db.bindings[i]));
        let j = choose|j: int| 0 <= j < db.bindings.len() && q(#[trigger] db.bindings[j]);
        assert(binding_persona(to)(db.bindings[j]));
    }
}

/// A persona's name is refused exactly where the new one is in use, or a
/// conversation is bound under both; and giving the old name back succeeds and
/// restores everything, where no conversation was bound under the new one.
pub proof fn law_persona_renamed_back(db: DbModel, from: Seq<char>, to: Seq<char>)
    requires
        from != to,
    ensures
        db.rename_persona_scope(from, to) is Err <==> {
            ||| any(db.sessions, with_persona(to))
            ||| any(db.app_state, with_key(CURRENT_SESSION_POINTER@ + ":"@ + to))
            ||| any(db.plugin_kv, real_context_key("affection_profile:"@ + to))
            ||| any(db.bindings, bound_under_both(db.bindings, from, to))
        },
        db.rename_persona_scope(from, to) matches Ok(done)
            ==> done.0.rename_persona_scope(to, from) is Ok,
        !any(db.bindings, binding_persona(to)) ==> (db.rename_persona_scope(
            from,
            to,
        ) matches Ok(done) ==> done.0.rename_persona_scope(to, from) == Ok::<
            (DbModel, ()),
            StateErrorModel,
        >((db, ()))),
{
    if let Ok(done) = db.rename_persona_scope(from, to) {
        let after = done.0;
        let pointer = CURRENT_SESSION_POINTER@ + ":"@;
        let affection = "affection_profile:"@;
        if pointer + from == pointer + to {
            lemma_prefix_injective(pointer, from, to);
        }
        if affection + from == affection + to {
            lemma_prefix_injective(affection, from, to);
        }
        lemma_gone_after_change(db.sessions, with_persona(from), set_persona(to));
        lemma_gone_after_change(db.bindings, binding_persona(from), set_binding_persona(to));
        lemma_not_bound(after, to, from);
        lemma_gone_after_change(db.app_state, with_key(pointer + from), set_key(pointer + to));
        lemma_gone_after_change(
            db.plugin_kv,
            real_context_key(affection + from),
            set_plugin_key(affection + to),
        );
        lemma_changed_back(
            db.sessions,
            with_persona(from),
            set_persona(to),
            with_persona(to),
            set_persona(from),
        );
        lemma_changed_back(
            db.app_state,
            with_key(pointer + from),
            set_key(pointer + to),
            with_key(pointer + to),
            set_key(pointer + from),
        );
        lemma_changed_back(
            db.plugin_kv,
            real_context_key(affection + from),
            set_plugin_key(affection + to),
            real_context_key(affection + to),
            set_plugin_key(affection + from),
        );
        if !any(db.bindings, binding_persona(to)) {
            lemma_changed_back(
                db.bindings,
                binding_persona(from),
                set_binding_persona(to),
                binding_persona(to),
                set_binding_persona(from),
            );
            assert(after.rename_persona_scope(to, from)->Ok_0.0 =~= db);
        }
    }
}

proof fn lemma_gone_after_change<V>(s: Seq<V>, p: spec_fn(V) -> bool, f: spec_fn(V) -> V)
    requires
        forall|v: V| p(v) ==> !p(#[trigger] f(v)),
    ensures
        !any(change_where(s, p, f), p),
{
    let t = change_where(s, p, f);
    if any(t, p) {
        let i = choose|i: int| 0 <= i < t.len() && p(#[trigger] t[i]);
        assert(t[i] == if p(s[i]) {
            f(s[i])
        } else {
            s[i]
        });
    }
}

proof fn lemma_moved<V>(
    s: Seq<V>,
    p: spec_fn(V) -> bool,
    q: spec_fn(V) -> bool,
    f: spec_fn(V) -> V,
)
    requires
        !any(s, q),
        forall|v: V| p(v) ==> q(#[trigger] f(v)),
    ensures
        change_where(s, p, f).filter(q) == s.filter(p).map_values(f),
    decreases s.len(),
{
    reveal(Seq::filter);
    let t = change_where(s, p, f);
    if s.len() > 0 {
        let rest = s.drop_last();
        if any(rest, q) {
            let i = choose|i: int| 0 <= i < rest.len() && q(#[trigger] rest[i]);
            assert(q(s[i]));
        }
        assert(!q(s[s.len() - 1]));
        lemma_moved(rest, p, q, f);
        assert(t.drop_last() =~= change_where(rest, p, f));
        if p(s.last()) {
            assert(rest.filter(p).push(s.last()).map_values(f) =~= rest.filter(p).map_values(
                f,
            ).push(f(s.last())));
        }
    } else {
        assert(t.filter(q) =~= s.filter(p).map_values(f));
    }
}

proof fn lemma_moved_first<V>(
    s: Seq<V>,
    p: spec_fn(V) -> bool,
    q: spec_fn(V) -> bool,
    f: spec_fn(V) -> V,
)
    requires
        !any(s, q),
        forall|v: V| p(v) ==> q(#[trigger] f(v)),
    ensures
        first(change_where(s, p, f), q) == match first(s, p) {
            Some(v) => Some(f(v)),
            None => None,
        },
    decreases s.len(),
{
    let t = change_where(s, p, f);
    if s.len() > 0 {
        let rest = s.drop_first();
        if any(rest, q) {
            let i = choose|i: int| 0 <= i < rest.len() && q(#[trigger] rest[i]);
            assert(q(s[i + 1]));
        }
        assert(!q(s[0]));
        lemma_moved_first(rest, p, q, f);
        assert(t.drop_first() =~= change_where(rest, p, f));
        assert(t[0] == if p(s[0]) {
            f(s[0])
        } else {
            s[0]
        });
    }
}

/// A session that was deleted is gone with its turns, bindings, loaded items and
/// waiting prompts; every other session stays.
pub proof fn law_deleted_session_gone(db: DbModel, id: Seq<char>, other: Seq<char>)
    requires
        db.delete_session(id) is Ok,
    ensures
        ({
            let after = db.delete_session(id)->Ok_0.0;
            &&& !after.has_session(id)
            &&& !any(after.turns, turn_of(id))
            &&& !after.is_platform_session(id)
            &&& !any(after.loaded_items, item_of(id))
            &&& !any(after.queued_prompts, prompt_of_session(id))
            &&& other != id ==> after.session_row(other) == db.session_row(other)
        }),
{
    let p = with_session_id(id);
    let after = db.delete_session(id)->Ok_0.0;
    let ids = db.sessions.filter(p).map_values(session_id_of());
    lemma_rejected(db.sessions, p);
    lemma_rejected(db.queued_prompts, prompt_of_session(id));
    let i = choose|i: int| 0 <= i < db.sessions.len() && p(#[trigger] db.sessions[i]);
    let row = db.sessions[i];
    lemma_filter_contains(db.sessions, p, row);
    assert(db.sessions.contains(row));
    let k = db.sessions.filter(p).index_of(row);
    assert(ids[k] == id);
    lemma_none_left(db.turns, turn_in_sessions(ids), turn_of(id));
    lemma_none_left(
        db.bindings,
        binding_of_sessions(ids),
        binds_session(id),
    );
    lemma_none_left(db.loaded_items, item_of_sessions(ids), item_of(id));
    if other != id {
        lemma_first_kept(db.sessions, not(p), with_session_id(other));
    }
}

/// Where everything that satisfies `p` was deleted, nothing satisfies a
/// predicate that implies it.
proof fn lemma_none_left<V>(s: Seq<V>, p: spec_fn(V) -> bool, q: spec_fn(V) -> bool)
    requires
        forall|v: V| #[trigger] q(v) ==> p(v),
    ensures
        !any(s.filter(not(p)), q),
{
    lemma_rejected(s, p);
    let t = s.filter(not(p));
    if any(t, q) {
        let i = choose|i: int| 0 <= i < t.len() && q(#[trigger] t[i]);
        assert(p(t[i]));
    }
}

/// A reset clears a session: no turn, no waiting prompt and no loaded item is
/// left, and what it has cost starts again at nothing.
pub proof fn law_reset_clears(db: DbModel, id: Seq<char>)
    ensures
        ({
            let after = db.reset(id);
            &&& !any(after.turns, turn_of(id))
            &&& !any(after.queued_prompts, prompt_of_session(id))
            &&& !any(after.loaded_items, item_of(id))
            &&& after.token_totals(id) == Ok::<TurnTokensModel, StateErrorModel>(
                TurnTokensModel { total: 0, prompt: 0, cache_read: 0 },
            )
        }),
{
    let after = db.reset(id);
    let p = subagent_of(id);
    let gone = db.sessions.filter(p).map_values(session_id_of());
    lemma_rejected(db.turns, turn_of(id));
    lemma_rejected(db.queued_prompts, prompt_of_session(id));
    lemma_rejected(db.loaded_items, item_of(id));
    lemma_rejected(db.sessions, p);
    let turns = db.turns.filter(not(turn_of(id)));
    lemma_still_none(turns, not(turn_in_sessions(gone)), turn_of(id));
    let items = db.loaded_items.filter(not(item_of(id)));
    lemma_still_none(items, not(item_of_sessions(gone)), item_of(id));
    lemma_filter_none(after.turns, turn_of(id));
    lemma_filter_none(after.sessions, p);
    let none = Seq::<TurnRowModel>::empty();
    let no_runs = Seq::<SessionRowModel>::empty();
    assert(none.map_values(turn_total()) =~= Seq::<i64>::empty());
    assert(none.map_values(turn_prompt()) =~= Seq::<i64>::empty());
    assert(none.map_values(turn_cache()) =~= Seq::<i64>::empty());
    assert(no_runs.map_values(run_total()) =~= Seq::<i64>::empty());
    assert(no_runs.map_values(run_prompt()) =~= Seq::<i64>::empty());
    assert(no_runs.map_values(run_cache()) =~= Seq::<i64>::empty());
}

proof fn lemma_still_none<V>(s: Seq<V>, keep: spec_fn(V) -> bool, q: spec_fn(V) -> bool)
    requires
        !any(s, q),
    ensures
        !any(s.filter(keep), q),
{
    lemma_any_filter(s, keep, q);
    let both = |v: V| keep(v) && q(v);
    if any(s, both) {
        let i = choose|i: int| 0 <= i < s.len() && both(#[trigger] s[i]);
        assert(q(s[i]));
    }
}

/// Hiding turns does not change what a session has cost.
pub proof fn law_hiding_keeps_totals(db: DbModel, id: Seq<char>, seq: i64, of: Seq<char>)
    ensures
        db.hide_turns_before_seq(id, seq).0.token_totals(of) == db.token_totals(of),
{
    lemma_totals_unseen(db.turns, turn_up_to(id, seq), set_hidden(true), of);
}

/// Pruning tool reports does not change what a session has cost.
pub proof fn law_pruning_keeps_totals(
    db: DbModel,
    id: Seq<char>,
    protect_recent: usize,
    min_saved_chars: usize,
    of: Seq<char>,
)
    ensures
        db.prune_stale_tool_reports(id, protect_recent, min_saved_chars).0.token_totals(of)
            == db.token_totals(of),
{
    let rows = db.prune_candidates(id, protect_recent);
    lemma_totals_unseen(
        db.turns,
        turn_among(id, rows.map_values(turn_id_of())),
        pruned(),
        of,
    );
}

proof fn lemma_totals_unseen(
    turns: Seq<TurnRowModel>,
    p: spec_fn(TurnRowModel) -> bool,
    f: spec_fn(TurnRowModel) -> TurnRowModel,
    of: Seq<char>,
)
    requires
        forall|r: TurnRowModel|
            p(r) ==> {
                &&& (#[trigger] f(r)).session_id == r.session_id
                &&& f(r).token_total == r.token_total
                &&& f(r).token_prompt == r.token_prompt
                &&& f(r).token_cache_read == r.token_cache_read
            },
    ensures
        ({
            let mine = turns.filter(turn_of(of));
            let after = change_where(turns, p, f).filter(turn_of(of));
            &&& after.map_values(turn_total()) == mine.map_values(turn_total())
            &&& after.map_values(turn_prompt()) == mine.map_values(turn_prompt())
            &&& after.map_values(turn_cache()) == mine.map_values(turn_cache())
        }),
{
    let mine = turns.filter(turn_of(of));
    lemma_filter_change(turns, p, f, turn_of(of));
    lemma_map_change(mine, p, f, turn_total());
    lemma_map_change(mine, p, f, turn_prompt());
    lemma_map_change(mine, p, f, turn_cache());
}

} // verus!
