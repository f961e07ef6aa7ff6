//! Laws of the bindings between conversations and sessions, of the plugins'
//! values, and of access grants.

use crate::facts::{
    lemma_any_push, lemma_filter_contains, lemma_first, lemma_first_kept, lemma_first_push,
    lemma_put_first, lemma_put_other, lemma_rejected,
};
use crate::laws::keys::law_bindings_lead_to_sessions;
use crate::state::access::grants_key;
use crate::state::db::DbModel;
use crate::state::error::StateErrorModel;
use crate::state::platform::{new_binding, of_key, of_other_key, rebound, same_conversation};
use crate::state::plugin::{at_key, in_scope, set_json};
use crate::state::rows::{BindingRowModel, PluginKvRowModel};
use crate::state::sessions::{
    binding_persona, binds_as, binds_session, bound_under_both, new_session, set_binding_persona,
    with_session_id, USER_SESSION_KIND,
};
use crate::state::store::{granted, SharedModel};
use crate::state::types::{
    PlatformAccessActorModel, PlatformAccessGrantKeyModel, PlatformAccessGrantModel,
    PlatformPluginScopeKeyModel, PlatformSessionBindingKeyModel, SessionRecordModel,
    GLOBAL_PLATFORM_ACCOUNT_SCOPE,
};
use crate::table::{any, change_where, first, not};
use vstd::prelude::*;

verus! {

/// Whether every conversation has at most one session, and every session at
/// most one conversation.
pub open spec fn exclusive(bindings: Seq<BindingRowModel>) -> bool {
    forall|i: int, j: int|
        0 <= i < j < bindings.len() ==> {
            &&& (#[trigger] bindings[i]).session_id != (#[trigger] bindings[j]).session_id
            &&& !same_conversation(bindings[i], bindings[j])
        }
}

/// A conversation that was bound is found under its session, and the others
/// stay bound as they were.
pub proof fn law_bind_then_find(
    db: DbModel,
    key: PlatformSessionBindingKeyModel,
    other: PlatformSessionBindingKeyModel,
    session_id: Seq<char>,
    now: Seq<char>,
)
    requires
        db.bind_platform_session(key, session_id, now) is Ok,
    ensures
        db.bind_platform_session(key, session_id, now)->Ok_0.0.bound_session(key) == Some(
            session_id,
        ),
        !other.same_conversation(key) ==> db.bind_platform_session(
            key,
            session_id,
            now,
        )->Ok_0.0.bound_session(other) == db.bound_session(other),
{
    let f = rebound(session_id, now);
    let v = new_binding(key, session_id, now);
    lemma_put_first(db.bindings, of_key(key), f, v);
    if !other.same_conversation(key) {
        lemma_put_other(db.bindings, of_key(key), f, v, of_key(other));
    }
}

/// A session that belongs to one conversation is never given to another.
pub proof fn law_bind_does_not_steal(
    db: DbModel,
    key: PlatformSessionBindingKeyModel,
    other: PlatformSessionBindingKeyModel,
    session_id: Seq<char>,
    now: Seq<char>,
)
    requires
        db.bound_session(other) == Some(session_id),
        !other.same_conversation(key),
    ensures
        db.bind_platform_session(key, session_id, now) is Err,
        db.bound_session(key) is None ==> db.claim_platform_session(key, session_id, now) is Err,
{
    lemma_first(db.bindings, of_key(other));
    let row = first(db.bindings, of_key(other))->0;
    let i = db.bindings.index_of(row);
    assert(of_other_key(key, session_id)(db.bindings[i]));
    assert(binds_session(session_id)(db.bindings[i]));
}

/// Whoever claims a session for a conversation gets the one that it has from
/// the first claim on.
pub proof fn law_claims_converge(
    db: DbModel,
    key: PlatformSessionBindingKeyModel,
    candidate: Seq<char>,
    now: Seq<char>,
    later_candidate: Seq<char>,
    later: Seq<char>,
)
    requires
        db.claim_platform_session(key, candidate, now) is Ok,
    ensures
        ({
            let (claimed, session_id) = db.claim_platform_session(key, candidate, now)->Ok_0;
            &&& claimed.bound_session(key) == Some(session_id)
            &&& claimed.claim_platform_session(key, later_candidate, later) == Ok::<
                (DbModel, Seq<char>),
                StateErrorModel,
            >((claimed, session_id))
        }),
{
    lemma_first_push(db.bindings, new_binding(key, candidate, now), of_key(key));
    lemma_first(db.bindings, of_key(key));
}

/// A conversation gets its session made once: asking again gives the same
/// record and makes nothing.
pub proof fn law_created_once(
    db: DbModel,
    key: PlatformSessionBindingKeyModel,
    name: Seq<char>,
    session_id: Seq<char>,
    now: Seq<char>,
    later_name: Seq<char>,
    later_id: Seq<char>,
    later: Seq<char>,
)
    requires
        db.create_or_get_platform_session(key, name, session_id, now) is Ok,
    ensures
        ({
            let (made, (record, _)) = db.create_or_get_platform_session(
                key,
                name,
                session_id,
                now,
            )->Ok_0;
            made.create_or_get_platform_session(key, later_name, later_id, later) == Ok::<
                (DbModel, (SessionRecordModel, bool)),
                StateErrorModel,
            >((made, (record, false)))
        }),
{
    if db.bound_session(key) is None {
        let row = new_session(session_id, key.persona, name, USER_SESSION_KIND@, None, now);
        lemma_first_push(db.bindings, new_binding(key, session_id, now), of_key(key));
        lemma_first(db.bindings, of_key(key));
        lemma_first_push(db.sessions, row, with_session_id(session_id));
    }
}

/// After a conversation was unbound it has no session, and the others have the
/// one that they had.
pub proof fn law_unbind_then_find(
    db: DbModel,
    key: PlatformSessionBindingKeyModel,
    other: PlatformSessionBindingKeyModel,
)
    ensures
        db.unbind_platform_session(key).0.bound_session(key) is None,
        db.unbind_platform_session(key).1 == db.bound_session(key) is Some,
        !other.same_conversation(key) ==> db.unbind_platform_session(key).0.bound_session(other)
            == db.bound_session(other),
{
    lemma_rejected(db.bindings, of_key(key));
    lemma_first(db.bindings, of_key(key));
    if !other.same_conversation(key) {
        lemma_first_kept(db.bindings, not(of_key(key)), of_key(other));
    }
}

/// A session is one of a platform from when a conversation is bound to it until
/// that conversation is unbound, and never where there is no record of it.
pub proof fn law_platform_session_while_bound(
    db: DbModel,
    key: PlatformSessionBindingKeyModel,
    session_id: Seq<char>,
    now: Seq<char>,
)
    requires
        db.well_formed(),
    ensures
        db.session_record(session_id) is None ==> !db.is_platform_session(session_id),
        db.bind_platform_session(key, session_id, now) matches Ok(done) ==> {
            &&& done.0.is_platform_session(session_id)
            &&& !done.0.unbind_platform_session(key).0.is_platform_session(session_id)
        },
        exclusive(db.bindings) && db.bound_session(key) == Some(session_id)
            ==> !db.unbind_platform_session(key).0.is_platform_session(session_id),
{
    law_bindings_lead_to_sessions(db, key, session_id, session_id, now);
    lemma_first(db.sessions, with_session_id(session_id));
    if let Ok(done) = db.bind_platform_session(key, session_id, now) {
        let after = done.0;
        law_bind_then_find(db, key, key, session_id, now);
        lemma_first(after.bindings, of_key(key));
        let row = first(after.bindings, of_key(key))->0;
        assert(binds_session(session_id)(after.bindings[after.bindings.index_of(row)]));
        let left = after.bindings.filter(not(of_key(key)));
        if any(left, binds_session(session_id)) {
            let p = binds_session(session_id);
            let i = choose|i: int| 0 <= i < left.len() && p(#[trigger] left[i]);
            assert(left.contains(left[i]));
            lemma_filter_contains(after.bindings, not(of_key(key)), left[i]);
            let k = after.bindings.index_of(left[i]);
            assert(k < db.bindings.len());
            assert(of_other_key(key, session_id)(db.bindings[k]));
        }
    }
    if exclusive(db.bindings) && db.bound_session(key) == Some(session_id) {
        lemma_first(db.bindings, of_key(key));
        let row = first(db.bindings, of_key(key))->0;
        let left = db.bindings.filter(not(of_key(key)));
        if any(left, binds_session(session_id)) {
            let p = binds_session(session_id);
            let i = choose|i: int| 0 <= i < left.len() && p(#[trigger] left[i]);
            assert(left.contains(left[i]));
            lemma_filter_contains(db.bindings, not(of_key(key)), left[i]);
            let a = db.bindings.index_of(left[i]);
            let b = db.bindings.index_of(row);
            assert(a == b || a < b || b < a);
        }
    }
}

proof fn lemma_exclusive_push(bindings: Seq<BindingRowModel>, row: BindingRowModel)
    requires
        exclusive(bindings),
        forall|i: int|
            0 <= i < bindings.len() ==> (#[trigger] bindings[i]).session_id != row.session_id
                && !same_conversation(bindings[i], row),
    ensures
        exclusive(bindings.push(row)),
{
}

/// No operation on bindings, nor the renaming of a persona, gives a session to two
/// conversations or a conversation to two sessions.
pub proof fn law_bindings_stay_exclusive(
    db: DbModel,
    key: PlatformSessionBindingKeyModel,
    session_id: Seq<char>,
    name: Seq<char>,
    now: Seq<char>,
    from: Seq<char>,
    to: Seq<char>,
)
    requires
        exclusive(db.bindings),
    ensures
        db.bind_platform_session(key, session_id, now) matches Ok(done) ==> exclusive(
            done.0.bindings,
        ),
        db.rename_persona_scope(from, to) matches Ok(done) ==> exclusive(done.0.bindings),
        db.claim_platform_session(key, session_id, now) matches Ok(done) ==> exclusive(
            done.0.bindings,
        ),
        !db.is_platform_session(session_id) ==> (db.create_or_get_platform_session(
            key,
            name,
            session_id,
            now,
        ) matches Ok(done) ==> exclusive(done.0.bindings)),
        exclusive(db.unbind_platform_session(key).0.bindings),
{
    let row = new_binding(key, session_id, now);
    if !any(db.bindings, of_key(key)) {
        assert forall|i: int| 0 <= i < db.bindings.len() implies !same_conversation(
            #[trigger] db.bindings[i],
            row,
        ) by {
            if same_conversation(db.bindings[i], row) {
                assert(of_key(key)(db.bindings[i]));
            }
        }
    }
    if let Ok(done) = db.bind_platform_session(key, session_id, now) {
        assert forall|i: int|
            0 <= i < db.bindings.len() && !of_key(key)(db.bindings[i]) implies (
        #[trigger] db.bindings[i]).session_id != session_id by {
            if db.bindings[i].session_id == session_id {
                assert(of_other_key(key, session_id)(db.bindings[i]));
            }
        }
        if any(db.bindings, of_key(key)) {
            let after = change_where(db.bindings, of_key(key), rebound(session_id, now));
            assert forall|i: int, j: int| 0 <= i < j < after.len() implies {
                &&& (#[trigger] after[i]).session_id != (#[trigger] after[j]).session_id
                &&& !same_conversation(after[i], after[j])
            } by {
                let a = db.bindings[i];
                let b = db.bindings[j];
                assert(a.session_id != b.session_id);
                assert(!same_conversation(a, b));
            }
        } else {
            lemma_exclusive_push(db.bindings, row);
        }
    }
    lemma_first(db.bindings, of_key(key));
    if let Ok(done) = db.claim_platform_session(key, session_id, now) {
        if db.bound_session(key) is None {
            lemma_unbound_session(db, session_id);
            lemma_exclusive_push(db.bindings, row);
        }
    }
    if let Ok(done) = db.create_or_get_platform_session(key, name, session_id, now) {
        if db.bound_session(key) is None && !db.is_platform_session(session_id) {
            lemma_unbound_session(db, session_id);
            lemma_exclusive_push(db.bindings, row);
        }
    }
    lemma_exclusive_filter(db.bindings, not(of_key(key)));
    if from != to && db.rename_persona_scope(from, to) is Ok {
        let p = binding_persona(from);
        let f = set_binding_persona(to);
        let after = change_where(db.bindings, p, f);
        assert forall|i: int, j: int| 0 <= i < j < after.len() implies {
            &&& (#[trigger] after[i]).session_id != (#[trigger] after[j]).session_id
            &&& !same_conversation(after[i], after[j])
        } by {
            let a = db.bindings[i];
            let b = db.bindings[j];
            assert(a.session_id != b.session_id);
            assert(!same_conversation(a, b));
            if same_conversation(after[i], after[j]) {
                if p(a) && !p(b) {
                    assert(binds_as(f(a))(b));
                    assert(bound_under_both(db.bindings, from, to)(a));
                } else if p(b) && !p(a) {
                    assert(binds_as(f(b))(a));
                    assert(bound_under_both(db.bindings, from, to)(b));
                }
            }
        }
    }
}

proof fn lemma_unbound_session(db: DbModel, session_id: Seq<char>)
    requires
        !db.is_platform_session(session_id),
    ensures
        forall|i: int|
            0 <= i < db.bindings.len() ==> (#[trigger] db.bindings[i]).session_id != session_id,
{
    assert forall|i: int| 0 <= i < db.bindings.len() implies (
    #[trigger] db.bindings[i]).session_id != session_id by {
        if db.bindings[i].session_id == session_id {
            assert(binds_session(session_id)(db.bindings[i]));
        }
    }
}

proof fn lemma_exclusive_filter(bindings: Seq<BindingRowModel>, p: spec_fn(BindingRowModel) -> bool)
    requires
        exclusive(bindings),
    ensures
        exclusive(bindings.filter(p)),
    decreases bindings.len(),
{
    reveal(Seq::filter);
    if bindings.len() > 0 {
        let rest = bindings.drop_last();
        assert forall|i: int, j: int| 0 <= i < j < rest.len() implies {
            &&& (#[trigger] rest[i]).session_id != (#[trigger] rest[j]).session_id
            &&& !same_conversation(rest[i], rest[j])
        } by {
            assert(bindings[i].session_id != bindings[j].session_id);
        }
        lemma_exclusive_filter(rest, p);
        if p(bindings.last()) {
            let kept = rest.filter(p);
            assert forall|i: int| 0 <= i < kept.len() implies (#[trigger] kept[i]).session_id
                != bindings.last().session_id && !same_conversation(kept[i], bindings.last()) by {
                assert(kept.contains(kept[i]));
                lemma_filter_contains(rest, p, kept[i]);
                let k = rest.index_of(kept[i]);
                assert(bindings[k].session_id != bindings[bindings.len() - 1].session_id);
            }
            lemma_exclusive_push(kept, bindings.last());
        }
    }
}

/// A value that a plugin stored is read back, with the time of the change, and
/// every other value stays as it was.
pub proof fn law_plugin_put_then_get(
    db: DbModel,
    scope: PlatformPluginScopeKeyModel,
    key: Seq<char>,
    json: Seq<char>,
    now: Seq<char>,
    other_scope: PlatformPluginScopeKeyModel,
    other_key: Seq<char>,
)
    ensures
        db.plugin_put_json(scope, key, json, now).plugin_row(scope, key) == Some(
            PluginKvRowModel { scope, key, value_json: json, updated_at: now },
        ),
        other_scope != scope || other_key != key ==> db.plugin_put_json(
            scope,
            key,
            json,
            now,
        ).plugin_row(other_scope, other_key) == db.plugin_row(other_scope, other_key),
{
    let p = at_key(scope, key);
    let f = set_json(json, now);
    let v = PluginKvRowModel { scope, key, value_json: json, updated_at: now };
    lemma_put_first(db.plugin_kv, p, f, v);
    lemma_first(db.plugin_kv, p);
    if other_scope != scope || other_key != key {
        lemma_put_other(db.plugin_kv, p, f, v, at_key(other_scope, other_key));
    }
}

/// A value that a plugin deleted is gone, and so is every value of a scope that
/// was deleted; values elsewhere stay as they were.
pub proof fn law_plugin_delete_then_get(
    db: DbModel,
    scope: PlatformPluginScopeKeyModel,
    key: Seq<char>,
    other_scope: PlatformPluginScopeKeyModel,
    other_key: Seq<char>,
)
    ensures
        db.plugin_delete_key(scope, key).0.plugin_row(scope, key) is None,
        db.plugin_delete_key(scope, key).1 == db.plugin_row(scope, key) is Some,
        db.plugin_delete_scope(scope).0.plugin_row(scope, key) is None,
        other_scope != scope || other_key != key ==> db.plugin_delete_key(
            scope,
            key,
        ).0.plugin_row(other_scope, other_key) == db.plugin_row(other_scope, other_key),
        other_scope != scope ==> db.plugin_delete_scope(scope).0.plugin_row(other_scope, other_key)
            == db.plugin_row(other_scope, other_key),
{
    let p = at_key(scope, key);
    lemma_rejected(db.plugin_kv, p);
    lemma_first(db.plugin_kv, p);
    lemma_rejected(db.plugin_kv, in_scope(scope));
    let left = db.plugin_kv.filter(not(in_scope(scope)));
    lemma_first(left, p);
    if any(left, p) {
        let i = choose|i: int| 0 <= i < left.len() && p(#[trigger] left[i]);
        assert(in_scope(scope)(left[i]));
    }
    let q = at_key(other_scope, other_key);
    if other_scope != scope || other_key != key {
        lemma_first_kept(db.plugin_kv, not(p), q);
    }
    if other_scope != scope {
        lemma_first_kept(db.plugin_kv, not(in_scope(scope)), q);
    }
}

/// An update that leaves a plugin's value as it was writes nothing.
pub proof fn law_plugin_update_without_change(
    db: DbModel,
    scope: PlatformPluginScopeKeyModel,
    key: Seq<char>,
    current: Option<Seq<char>>,
    now: Seq<char>,
)
    ensures
        db.plugin_update_json(scope, key, current, current, now) == db,
{
}

/// Whether a key was granted, as the table has it.
proof fn lemma_granted(grants: Seq<PlatformAccessGrantModel>, key: PlatformAccessGrantKeyModel)
    ensures
        granted(grants).contains(key) == any(grants, grants_key(key)),
{
    let keys = grants.map_values(|g: PlatformAccessGrantModel| g.key);
    if keys.contains(key) {
        let i = keys.index_of(key);
        assert(grants_key(key)(grants[i]));
    }
    if any(grants, grants_key(key)) {
        let i = choose|i: int| 0 <= i < grants.len() && grants_key(key)(#[trigger] grants[i]);
        assert(keys[i] == key);
    }
}

/// The index of grants always holds what the table holds.
pub proof fn law_access_index_mirrors_grants(
    shared: SharedModel,
    key: PlatformAccessGrantKeyModel,
    actor: PlatformAccessActorModel,
    audit_id: Seq<char>,
    now: Seq<char>,
)
    requires
        shared.consistent(),
    ensures
        shared.grant(key, actor, audit_id, now).0.consistent(),
        shared.revoke(key, actor, audit_id, now).0.consistent(),
        shared.access.contains(key) == shared.db.has_grant(key),
{
    let after = shared.grant(key, actor, audit_id, now).0;
    let taken = shared.revoke(key, actor, audit_id, now).0;
    let row = PlatformAccessGrantModel { key, granted_by: actor, created_at: now };
    lemma_granted(shared.db.grants, key);
    assert forall|k: PlatformAccessGrantKeyModel| after.access.contains(k) == granted(
        after.db.grants,
    ).contains(k) by {
        lemma_granted(shared.db.grants, k);
        lemma_granted(after.db.grants, k);
        lemma_any_push(shared.db.grants, row, grants_key(k));
    }
    assert(after.access =~= granted(after.db.grants));
    assert forall|k: PlatformAccessGrantKeyModel| taken.access.contains(k) == granted(
        taken.db.grants,
    ).contains(k) by {
        lemma_granted(shared.db.grants, k);
        lemma_granted(taken.db.grants, k);
        if k == key {
            lemma_rejected(shared.db.grants, grants_key(key));
        } else {
            lemma_first_kept(shared.db.grants, not(grants_key(key)), grants_key(k));
        }
    }
    assert(taken.access =~= granted(taken.db.grants));
}

/// Who was granted a permission has it, for as long as it is not taken back;
/// and a grant for all accounts covers each.
pub proof fn law_grant_then_revoke(
    shared: SharedModel,
    key: PlatformAccessGrantKeyModel,
    actor: PlatformAccessActorModel,
    audit_id: Seq<char>,
    now: Seq<char>,
    account: Seq<char>,
)
    requires
        shared.consistent(),
    ensures
        shared.grant(key, actor, audit_id, now).0.allows(key),
        key.account_scope == GLOBAL_PLATFORM_ACCOUNT_SCOPE@ ==> shared.grant(
            key,
            actor,
            audit_id,
            now,
        ).0.allows((PlatformAccessGrantKeyModel { account_scope: account, ..key })),
        shared.revoke(key, actor, audit_id, now).0.allows(key) == (key.account_scope
            != GLOBAL_PLATFORM_ACCOUNT_SCOPE@ && shared.access.contains(
            PlatformAccessGrantKeyModel { account_scope: GLOBAL_PLATFORM_ACCOUNT_SCOPE@, ..key },
        )),
        shared.revoke(key, actor, audit_id, now).1 == shared.access.contains(key),
        shared.grant(key, actor, audit_id, now).1 == !shared.access.contains(key),
{
    law_access_index_mirrors_grants(shared, key, actor, audit_id, now);
    assert(PlatformAccessGrantKeyModel { account_scope: key.account_scope, ..key } == key);
    assert((PlatformAccessGrantKeyModel {
        account_scope: GLOBAL_PLATFORM_ACCOUNT_SCOPE@,
        ..PlatformAccessGrantKeyModel { account_scope: account, ..key }
    }) == (PlatformAccessGrantKeyModel {
        account_scope: GLOBAL_PLATFORM_ACCOUNT_SCOPE@,
        ..key
    }));
}

/// Every change of a grant leaves one line in the audit log, and a change that
/// changes nothing leaves none.
pub proof fn law_changes_are_audited(
    shared: SharedModel,
    key: PlatformAccessGrantKeyModel,
    actor: PlatformAccessActorModel,
    audit_id: Seq<char>,
    now: Seq<char>,
)
    ensures
        ({
            let (after, changed) = shared.grant(key, actor, audit_id, now);
            after.db.audit.len() == shared.db.audit.len() + if changed {
                1int
            } else {
                0int
            }
        }),
        ({
            let (after, changed) = shared.revoke(key, actor, audit_id, now);
            after.db.audit.len() == shared.db.audit.len() + if changed {
                1int
            } else {
                0int
            }
        }),
{
}

} // verus!
