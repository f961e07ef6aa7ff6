//! Laws of personas that get another name or go, and of permissions that hold
//! everywhere.

use crate::facts::lemma_filter_contains;
use crate::state::db::DbModel;
use crate::state::error::StateErrorModel;
use crate::state::rows::{AppStateRowModel, PluginKvRowModel};
use crate::state::sessions::{
    binds_as, bound_under_both, real_context_key, set_binding_persona, with_key, with_persona,
    CURRENT_SESSION_POINTER,
};
use crate::state::store::SharedModel;
use crate::state::types::PlatformAccessGrantKeyModel;
use crate::table::{any, not};
use vstd::prelude::*;

verus! {

/// A persona that gets another name takes along its sessions, its bindings, the note
/// of its current session and what it feels; what belongs to others stays.
pub proof fn law_renamed_persona_takes_all_along(
    db: DbModel,
    from: Seq<char>,
    to: Seq<char>,
    after: DbModel,
    i: int,
)
    requires
        from != to,
        db.rename_persona_scope(from, to) == Ok::<(DbModel, ()), StateErrorModel>((after, ())),
    ensures
        0 <= i < db.sessions.len() ==> after.sessions.len() == db.sessions.len()
            && after.sessions[i].record.persona == (if db.sessions[i].record.persona == from {
            to
        } else {
            db.sessions[i].record.persona
        }) && after.sessions[i].record.session_id == db.sessions[i].record.session_id
            && after.sessions[i].record.name == db.sessions[i].record.name,
        0 <= i < db.bindings.len() ==> after.bindings.len() == db.bindings.len()
            && after.bindings[i].persona == (if db.bindings[i].persona == from {
            to
        } else {
            db.bindings[i].persona
        }) && after.bindings[i].session_id == db.bindings[i].session_id,
        0 <= i < db.app_state.len() ==> after.app_state.len() == db.app_state.len()
            && after.app_state[i].value == db.app_state[i].value && after.app_state[i].key == (
        if db.app_state[i].key == "current_session_persona"@ + ":"@ + from {
            "current_session_persona"@ + ":"@ + to
        } else {
            db.app_state[i].key
        }),
        0 <= i < db.plugin_kv.len() ==> after.plugin_kv.len() == db.plugin_kv.len()
            && after.plugin_kv[i].value_json == db.plugin_kv[i].value_json
            && after.plugin_kv[i].scope == db.plugin_kv[i].scope && after.plugin_kv[i].key == (
        if db.plugin_kv[i].scope.plugin_id == "real_context"@ && db.plugin_kv[i].key
            == "affection_profile:"@ + from {
            "affection_profile:"@ + to
        } else {
            db.plugin_kv[i].key
        }),
        after.turns == db.turns,
        after.queued_prompts == db.queued_prompts,
{
}

/// A persona is not given a name under which there is a session already, or the note of
/// a current session; with a new name for which there is nothing it is renamed.
pub proof fn law_name_of_another_persona_is_refused(
    db: DbModel,
    from: Seq<char>,
    to: Seq<char>,
    i: int,
)
    requires
        from != to,
    ensures
        0 <= i < db.sessions.len() && db.sessions[i].record.persona == to
            ==> db.rename_persona_scope(from, to) is Err,
        0 <= i < db.app_state.len() && db.app_state[i].key == "current_session_persona"@ + ":"@ + to
            ==> db.rename_persona_scope(from, to) is Err,
        (forall|j: int|
            0 <= j < db.sessions.len() ==> (#[trigger] db.sessions[j]).record.persona != to) && (
        forall|j: int|
            0 <= j < db.app_state.len() ==> (#[trigger] db.app_state[j]).key
                != "current_session_persona"@ + ":"@ + to) && (forall|j: int|
            0 <= j < db.plugin_kv.len() ==> (#[trigger] db.plugin_kv[j]).key
                != "affection_profile:"@ + to) && (forall|j: int|
            0 <= j < db.bindings.len() ==> (#[trigger] db.bindings[j]).persona != to)
            ==> db.rename_persona_scope(from, to) is Ok,
{
    let p = with_persona(to);
    let q = with_key(CURRENT_SESSION_POINTER@ + ":"@ + to);
    let r = real_context_key("affection_profile:"@ + to);
    let b = bound_under_both(db.bindings, from, to);
    if 0 <= i < db.sessions.len() && db.sessions[i].record.persona == to {
        assert(p(db.sessions[i]));
    }
    if 0 <= i < db.app_state.len() && db.app_state[i].key == "current_session_persona"@ + ":"@ + to {
        assert(q(db.app_state[i]));
    }
    if any(db.sessions, p) {
        let j = choose|j: int| 0 <= j < db.sessions.len() && p(#[trigger] db.sessions[j]);
        assert(db.sessions[j].record.persona == to);
    }
    if any(db.app_state, q) {
        let j = choose|j: int| 0 <= j < db.app_state.len() && q(#[trigger] db.app_state[j]);
        assert(db.app_state[j].key == CURRENT_SESSION_POINTER@ + ":"@ + to);
    }
    if any(db.plugin_kv, r) {
        let j = choose|j: int| 0 <= j < db.plugin_kv.len() && r(#[trigger] db.plugin_kv[j]);
        assert(db.plugin_kv[j].key == "affection_profile:"@ + to);
    }
    if any(db.bindings, b) {
        let j = choose|j: int| 0 <= j < db.bindings.len() && b(#[trigger] db.bindings[j]);
        let like = binds_as(set_binding_persona(to)(db.bindings[j]));
        let k = choose|k: int| 0 <= k < db.bindings.len() && like(#[trigger] db.bindings[k]);
        assert(db.bindings[k].persona == to);
    }
}

/// With a persona go the note of its current session and what it felt; other notes and
/// values stay.
pub proof fn law_notes_of_a_persona_leave(
    db: DbModel,
    persona: Seq<char>,
    note: AppStateRowModel,
    value: PluginKvRowModel,
)
    ensures
        db.without_persona(persona).app_state.contains(note) == (db.app_state.contains(note)
            && note.key != "current_session_persona"@ + ":"@ + persona),
        db.without_persona(persona).plugin_kv.contains(value) == (db.plugin_kv.contains(value) && !(
        value.scope.plugin_id == "real_context"@ && value.key == "affection_profile:"@ + persona)),
{
    lemma_filter_contains(
        db.app_state,
        not(with_key(CURRENT_SESSION_POINTER@ + ":"@ + persona)),
        note,
    );
    lemma_filter_contains(
        db.plugin_kv,
        not(real_context_key("affection_profile:"@ + persona)),
        value,
    );
}

/// A permission that was given for all accounts holds for each of them; one that was
/// given for one account holds for that one; and nothing is permitted that was given
/// for neither.
pub proof fn law_permission_for_all_accounts(
    shared: SharedModel,
    key: PlatformAccessGrantKeyModel,
)
    ensures
        shared.allows(key) <==> shared.access.contains(key) || shared.access.contains(
            (PlatformAccessGrantKeyModel { account_scope: "*"@, ..key }),
        ),
{
}

} // verus!
