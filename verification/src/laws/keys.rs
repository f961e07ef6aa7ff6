//! Every operation keeps the store well formed.

use crate::facts::lemma_first;
use crate::language::Language;
use crate::state::access::{by_grant, grant_on, grants_key};
use crate::state::cascade::{
    binding_of_sessions, item_of_sessions, session_id_of, turn_id_of, turn_in_sessions,
};
use crate::state::checkpoint::item_of;
use crate::state::db::DbModel;
use crate::state::keys::{
    app_key, binding_key, bound_to, grant_key, item_key, lemma_children_cut, lemma_contains_key, lemma_keys_left,
    lemma_sessions_changed, lemma_tied_change, lemma_tied_cut, lemma_tied_filter, lemma_tied_push,
    lemma_tied_wider, lemma_turns_changed, lemma_unique_at, lemma_unique_change,
    lemma_unique_filter, lemma_unique_ordered, lemma_unique_push, lemma_unique_put,
    lemma_unique_rekeyed, plugin_key, unique,
};
use crate::state::platform::{new_binding, of_key, rebound, same_conversation};
use crate::state::plugin::{at_key, in_scope, set_json};
use crate::state::queue::prompt_id_of;
use crate::state::redo::with_turn_id;
use crate::state::reset::{
    item_named, prompt_of_sessions, reloaded, subagent_among, subagent_of,
};
use crate::state::rows::{
    AppStateRowModel, LoadedItemRowModel, PluginKvRowModel, SessionRowModel, TurnRowModel,
};
use crate::state::sessions::{
    binding_persona, binds_as, binds_session, bound_under_both, new_session, prompt_of_session, real_context_key,
    set_binding_persona, set_key, set_persona, set_plugin_key, set_updated_at, set_value,
    terminal_session, with_key, with_persona, with_session_id, CURRENT_SESSION_POINTER,
    DEFAULT_SESSION_ID, USER_SESSION_KIND,
};
use crate::state::turns::turn_of;
use crate::state::types::{
    PlatformAccessActorModel, PlatformAccessGrantKeyModel, PlatformAccessGrantModel,
    PlatformPluginScopeKeyModel, PlatformSessionBindingKeyModel,
};
use crate::table::not;
use crate::text::trimmed;
use vstd::prelude::*;

verus! {

/// An empty store is well formed.
pub proof fn law_empty_store_is_well_formed()
    ensures
        DbModel::empty().well_formed(),
{
}

/// Deleting turns with all that hangs off them keeps the store well formed.
pub proof fn law_turns_leave_whole(db: DbModel, p: spec_fn(TurnRowModel) -> bool)
    requires
        db.well_formed(),
    ensures
        db.without_turns(p).well_formed(),
{
    let gone = db.turns.filter(p).map_values(turn_id_of());
    let after = db.without_turns(p);
    lemma_unique_filter(db.turns, not(p), turn_id_of());
    lemma_keys_left(db.turns, p, turn_id_of());
    let bare = DbModel { turns: db.turns.filter(not(p)), ..db };
    lemma_children_cut(bare, db.turn_ids(), gone, after.turn_ids());
}

/// Deleting sessions with all that hangs off them keeps the store well formed.
pub proof fn law_sessions_leave_whole(db: DbModel, p: spec_fn(SessionRowModel) -> bool)
    requires
        db.well_formed(),
    ensures
        db.without_sessions(p).well_formed(),
{
    let gone = db.sessions.filter(p).map_values(session_id_of());
    let bare = DbModel {
        sessions: db.sessions.filter(not(p)),
        bindings: db.bindings.filter(not(binding_of_sessions(gone))),
        loaded_items: db.loaded_items.filter(not(item_of_sessions(gone))),
        ..db
    };
    lemma_unique_filter(db.sessions, not(p), session_id_of());
    lemma_unique_filter(db.bindings, not(binding_of_sessions(gone)), binding_key());
    lemma_unique_filter(db.loaded_items, not(item_of_sessions(gone)), item_key());
    lemma_keys_left(db.sessions, p, session_id_of());
    lemma_tied_cut(
        db.bindings,
        not(binding_of_sessions(gone)),
        bound_to(),
        db.session_ids(),
        gone,
        bare.session_ids(),
    );
    law_turns_leave_whole(bare, turn_in_sessions(gone));
}

proof fn lemma_new_session(db: DbModel, row: SessionRowModel)
    requires
        db.well_formed(),
        !db.has_session(row.record.session_id),
    ensures
        (DbModel { sessions: db.sessions.push(row), ..db }).well_formed(),
{
    let id = row.record.session_id;
    let ids = db.session_ids();
    if ids.contains(id) {
        assert(with_session_id(id)(db.sessions[ids.index_of(id)]));
    }
    lemma_unique_push(db.sessions, row, session_id_of());
    let more = db.sessions.push(row).map_values(session_id_of());
    assert forall|known: Seq<char>| #[trigger] ids.contains(known) implies more.contains(known) by {
        assert(more[ids.index_of(known)] == known);
    }
    lemma_tied_wider(db.bindings, bound_to(), ids, more);
}

/// Making a session, going to one, touching one, adopting those of no persona
/// and deleting one keep the store well formed.
pub proof fn law_session_changes_keep_keys(
    db: DbModel,
    id: Seq<char>,
    persona: Seq<char>,
    name: Seq<char>,
    kind: Seq<char>,
    parent: Option<Seq<char>>,
    now: Seq<char>,
    language: Language,
)
    requires
        db.well_formed(),
    ensures
        db.create_session(id, persona, name, kind, parent, now) matches Ok(done)
            ==> done.0.well_formed(),
        db.resolve_current_session(now, language).0.well_formed(),
        db.set_current_session(id) matches Ok(done) ==> done.0.well_formed(),
        db.touch_session(id, now).well_formed(),
        db.adopted_by(persona).well_formed(),
        db.delete_session(id) matches Ok(done) ==> done.0.well_formed(),
        db.reset(id).well_formed(),
        db.reset_history(id).well_formed(),
        db.without_persona(persona).well_formed(),
{
    let row = new_session(id, persona, name, kind, parent, now);
    if !db.has_session(id) {
        lemma_new_session(db, row);
    }
    let first = new_session(
        DEFAULT_SESSION_ID@,
        Seq::empty(),
        terminal_session(language),
        USER_SESSION_KIND@,
        None,
        now,
    );
    if db.has_session(DEFAULT_SESSION_ID@) {
        law_values_keep_keys(db, "current_session"@, DEFAULT_SESSION_ID@);
    } else {
        lemma_new_session(db, first);
        law_values_keep_keys(
            DbModel { sessions: db.sessions.push(first), ..db },
            "current_session"@,
            DEFAULT_SESSION_ID@,
        );
    }
    law_values_keep_keys(db, "current_session"@, id);
    lemma_sessions_changed(db, with_session_id(id), set_updated_at(now));
    lemma_sessions_changed(db, with_persona(Seq::empty()), set_persona(persona));
    let fewer = DbModel {
        queued_prompts: db.queued_prompts.filter(not(prompt_of_session(id))),
        ..db
    };
    lemma_unique_filter(db.queued_prompts, not(prompt_of_session(id)), prompt_id_of());
    law_sessions_leave_whole(fewer, with_session_id(id));
    law_turns_leave_whole(fewer, turn_of(id));
    law_turns_leave_whole(db, turn_of(id));
    let cut = fewer.without_turns(turn_of(id));
    lemma_unique_filter(db.loaded_items, not(item_of(id)), item_key());
    law_sessions_leave_whole(
        DbModel { loaded_items: cut.loaded_items.filter(not(item_of(id))), ..cut },
        subagent_of(id),
    );
    law_sessions_leave_whole(db, with_persona(persona));
    let left = db.without_sessions(with_persona(persona));
    lemma_unique_filter(
        left.app_state,
        not(with_key(CURRENT_SESSION_POINTER@ + ":"@ + persona)),
        app_key(),
    );
    lemma_unique_filter(
        left.plugin_kv,
        not(real_context_key("affection_profile:"@ + persona)),
        plugin_key(),
    );
}

/// Recording a value of the application, or where a pointer leads, keeps the
/// store well formed.
pub proof fn law_values_keep_keys(db: DbModel, key: Seq<char>, value: Seq<char>)
    requires
        db.well_formed(),
    ensures
        db.with_app_value(key, value).well_formed(),
{
    lemma_unique_put(
        db.app_state,
        with_key(key),
        set_value(value),
        AppStateRowModel { key, value },
        app_key(),
    );
}

/// Setting one column of a session or of a turn keeps the store well formed.
pub proof fn law_columns_keep_keys(
    db: DbModel,
    id: Seq<char>,
    session: spec_fn(SessionRowModel) -> SessionRowModel,
    turn: spec_fn(TurnRowModel) -> TurnRowModel,
)
    requires
        db.well_formed(),
        forall|r: SessionRowModel|
            (#[trigger] session(r)).record.session_id == r.record.session_id,
        forall|r: TurnRowModel| (#[trigger] turn(r)).turn_id == r.turn_id,
    ensures
        db.with_session_changed(id, session) matches Ok(done) ==> done.0.well_formed(),
        db.with_turn_changed(id, turn).well_formed(),
{
    lemma_sessions_changed(db, with_session_id(id), session);
    lemma_turns_changed(db, with_turn_id(id), turn);
}

/// Clearing the context of sessions keeps the store well formed.
pub proof fn law_cleared_contexts_keep_keys(db: DbModel, ids: Seq<Seq<char>>)
    requires
        db.well_formed(),
    ensures
        db.contexts_reset(ids).well_formed(),
{
    let fewer = DbModel {
        queued_prompts: db.queued_prompts.filter(not(prompt_of_sessions(ids))),
        ..db
    };
    lemma_unique_filter(db.queued_prompts, not(prompt_of_sessions(ids)), prompt_id_of());
    law_turns_leave_whole(fewer, turn_in_sessions(ids));
    let cut = fewer.without_turns(turn_in_sessions(ids));
    lemma_unique_filter(db.loaded_items, not(item_of_sessions(ids)), item_key());
    law_sessions_leave_whole(
        DbModel { loaded_items: cut.loaded_items.filter(not(item_of_sessions(ids))), ..cut },
        subagent_among(ids),
    );
}

/// Renaming a persona keeps the store well formed.
pub proof fn law_renaming_keeps_keys(db: DbModel, from: Seq<char>, to: Seq<char>)
    requires
        db.well_formed(),
    ensures
        db.rename_persona_scope(from, to) matches Ok(done) ==> done.0.well_formed(),
{
    let pointer = CURRENT_SESSION_POINTER@ + ":"@;
    let affection = "affection_profile:"@;
    if from != to && db.rename_persona_scope(from, to) is Ok {
        lemma_unique_change(db.sessions, with_persona(from), set_persona(to), session_id_of());
        lemma_tied_change(
            db.bindings,
            binding_persona(from),
            set_binding_persona(to),
            bound_to(),
            db.session_ids(),
        );
        let bound = binding_persona(from);
        let rebound_to = set_binding_persona(to);
        assert forall|i: int, j: int|
            0 <= i < db.bindings.len() && 0 <= j < db.bindings.len() && i != j && bound(
                #[trigger] db.bindings[i],
            ) implies binding_key()(rebound_to(db.bindings[i])) != binding_key()(
            if bound(#[trigger] db.bindings[j]) {
                rebound_to(db.bindings[j])
            } else {
                db.bindings[j]
            },
        ) by {
            let a = db.bindings[i];
            let b = db.bindings[j];
            if bound(b) {
                if binding_key()(rebound_to(a)) == binding_key()(rebound_to(b)) {
                    lemma_unique_at(db.bindings, binding_key(), i, j);
                }
            } else if same_conversation(b, rebound_to(a)) {
                assert(binds_as(rebound_to(a))(b));
                assert(bound_under_both(db.bindings, from, to)(a));
            }
        }
        lemma_unique_rekeyed(db.bindings, bound, rebound_to, binding_key());
        let p = with_key(pointer + from);
        let f = set_key(pointer + to);
        assert forall|i: int, j: int|
            0 <= i < db.app_state.len() && 0 <= j < db.app_state.len() && i != j && p(
                #[trigger] db.app_state[i],
            ) implies app_key()(f(db.app_state[i])) != app_key()(
            if p(#[trigger] db.app_state[j]) {
                f(db.app_state[j])
            } else {
                db.app_state[j]
            },
        ) by {
            if p(db.app_state[j]) {
                lemma_unique_at(db.app_state, app_key(), i, j);
            } else if db.app_state[j].key == pointer + to {
                assert(with_key(pointer + to)(db.app_state[j]));
            }
        }
        lemma_unique_rekeyed(db.app_state, p, f, app_key());
        let q = real_context_key(affection + from);
        let g = set_plugin_key(affection + to);
        assert forall|i: int, j: int|
            0 <= i < db.plugin_kv.len() && 0 <= j < db.plugin_kv.len() && i != j && q(
                #[trigger] db.plugin_kv[i],
            ) implies plugin_key()(g(db.plugin_kv[i])) != plugin_key()(
            if q(#[trigger] db.plugin_kv[j]) {
                g(db.plugin_kv[j])
            } else {
                db.plugin_kv[j]
            },
        ) by {
            let a = db.plugin_kv[i];
            let b = db.plugin_kv[j];
            if q(b) {
                if a.scope == b.scope {
                    lemma_unique_at(db.plugin_kv, plugin_key(), i, j);
                }
            } else if b.key == affection + to && b.scope == a.scope {
                assert(real_context_key(affection + to)(b));
            }
        }
        lemma_unique_rekeyed(db.plugin_kv, q, g, plugin_key());
    }
}

/// Binding, claiming, making and unbinding a conversation's session keep the
/// store well formed: no conversation is bound to a session that does not
/// exist.
pub proof fn law_bindings_lead_to_sessions(
    db: DbModel,
    key: PlatformSessionBindingKeyModel,
    session_id: Seq<char>,
    name: Seq<char>,
    now: Seq<char>,
)
    requires
        db.well_formed(),
    ensures
        db.bind_platform_session(key, session_id, now) matches Ok(done) ==> done.0.well_formed(),
        db.claim_platform_session(key, session_id, now) matches Ok(done) ==> done.0.well_formed(),
        db.create_or_get_platform_session(key, name, session_id, now) matches Ok(done)
            ==> done.0.well_formed(),
        db.unbind_platform_session(key).0.well_formed(),
        db.is_platform_session(session_id) ==> db.has_session(session_id),
{
    let ids = db.session_ids();
    let bound = new_binding(key, session_id, now);
    lemma_unique_put(
        db.bindings,
        of_key(key),
        rebound(session_id, now),
        bound,
        binding_key(),
    );
    lemma_first(db.bindings, of_key(key));
    lemma_unique_filter(db.bindings, not(of_key(key)), binding_key());
    if db.has_session(session_id) {
        let p = with_session_id(session_id);
        let i = choose|i: int| 0 <= i < db.sessions.len() && p(#[trigger] db.sessions[i]);
        lemma_contains_key(db.sessions, session_id_of(), i);
        assert(ids.contains(session_id));
        lemma_tied_change(db.bindings, of_key(key), rebound(session_id, now), bound_to(), ids);
        lemma_tied_push(db.bindings, bound, bound_to(), ids);
    } else {
        let row = new_session(session_id, key.persona, name, USER_SESSION_KIND@, None, now);
        lemma_new_session(db, row);
        let more = db.sessions.push(row).map_values(session_id_of());
        lemma_contains_key(db.sessions.push(row), session_id_of(), db.sessions.len() as int);
        lemma_tied_push(db.bindings, bound, bound_to(), more);
    }
    lemma_tied_filter(db.bindings, not(of_key(key)), bound_to(), ids);
    if db.is_platform_session(session_id) {
        let p = binds_session(session_id);
        let i = choose|i: int| 0 <= i < db.bindings.len() && p(#[trigger] db.bindings[i]);
        assert(ids.contains(bound_to()(db.bindings[i])));
        let k = ids.index_of(session_id);
        assert(with_session_id(session_id)(db.sessions[k]));
    }
}

/// Granting and revoking access keep the store well formed.
pub proof fn law_grants_keep_keys(
    db: DbModel,
    key: PlatformAccessGrantKeyModel,
    actor: PlatformAccessActorModel,
    audit_id: Seq<char>,
    now: Seq<char>,
)
    requires
        db.well_formed(),
    ensures
        db.add_platform_access_grant(key, actor, audit_id, now).0.well_formed(),
        db.remove_platform_access_grant(key, actor, audit_id, now).0.well_formed(),
{
    let row = PlatformAccessGrantModel { key, granted_by: actor, created_at: now };
    let keys = db.grants.map_values(grant_key());
    if keys.contains(key) {
        assert(grants_key(key)(db.grants[keys.index_of(key)]));
    } else {
        lemma_unique_push(db.grants, row, grant_key());
    }
    lemma_unique_filter(db.grants, not(grants_key(key)), grant_key());
}

/// The list of grants never shows the same grant twice.
pub proof fn law_grants_are_listed_once(db: DbModel, platform: Option<Seq<char>>)
    requires
        db.well_formed(),
    ensures
        unique(db.platform_access_grants(platform), grant_key()),
{
    lemma_unique_filter(db.grants, grant_on(platform), grant_key());
    lemma_unique_ordered(db.grants.filter(grant_on(platform)), by_grant(), grant_key());
}

/// Storing and deleting values of plugins keep the store well formed.
pub proof fn law_plugin_values_keep_keys(
    db: DbModel,
    scope: PlatformPluginScopeKeyModel,
    key: Seq<char>,
    current: Option<Seq<char>>,
    next: Option<Seq<char>>,
    json: Seq<char>,
    now: Seq<char>,
)
    requires
        db.well_formed(),
    ensures
        db.plugin_put_json(scope, key, json, now).well_formed(),
        db.plugin_delete_key(scope, key).0.well_formed(),
        db.plugin_delete_scope(scope).0.well_formed(),
        db.plugin_update_json(scope, key, current, next, now).well_formed(),
{
    lemma_unique_put(
        db.plugin_kv,
        at_key(scope, key),
        set_json(json, now),
        PluginKvRowModel { scope, key, value_json: json, updated_at: now },
        plugin_key(),
    );
    if let Some(text) = next {
        lemma_unique_put(
            db.plugin_kv,
            at_key(scope, key),
            set_json(text, now),
            PluginKvRowModel { scope, key, value_json: text, updated_at: now },
            plugin_key(),
        );
    }
    lemma_unique_filter(db.plugin_kv, not(at_key(scope, key)), plugin_key());
    lemma_unique_filter(db.plugin_kv, not(in_scope(scope)), plugin_key());
}

/// Loading items keeps the store well formed: no item of a session is listed twice.
pub proof fn law_items_are_listed_once(
    db: DbModel,
    session_id: Seq<char>,
    kind: Seq<char>,
    names: Seq<Seq<char>>,
    source: Option<Seq<char>>,
    now: Seq<char>,
    n: nat,
)
    requires
        db.well_formed(),
        n <= names.len(),
    ensures
        db.items_added(session_id, kind, names, source, now, n).0.well_formed(),
    decreases n,
{
    if n > 0 {
        let less = (n - 1) as nat;
        law_items_are_listed_once(db, session_id, kind, names, source, now, less);
        let before = db.items_added(session_id, kind, names, source, now, less).0;
        let name = trimmed(names[n - 1]);
        lemma_unique_put(
            before.loaded_items,
            item_named(session_id, kind, name),
            reloaded(source, now),
            LoadedItemRowModel {
                session_id,
                kind,
                name,
                source_turn_id: source,
                created_at: now,
                updated_at: now,
            },
            item_key(),
        );
    }
}

} // verus!
