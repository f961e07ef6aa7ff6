//! What platform plugins keep: JSON values under a scope and a key.

use crate::state::db::{ConversationDb, DbModel};
use crate::state::rows::{PluginKvRow, PluginKvRowModel};
use crate::state::types::{PlatformPluginScopeKey, PlatformPluginScopeKeyModel};
use crate::table::{
    any,
    count,
    count_rows,
    exists_row,
    first,
    first_row,
    not,
    put,
    put_row,
    reject,
    Row,
};
use crate::text::same;
use vstd::prelude::*;

verus! {

pub open spec fn in_scope(scope: PlatformPluginScopeKeyModel) -> spec_fn(PluginKvRowModel) -> bool {
    |r: PluginKvRowModel| r.scope == scope
}

pub open spec fn at_key(scope: PlatformPluginScopeKeyModel, key: Seq<char>) -> spec_fn(
    PluginKvRowModel,
) -> bool {
    |r: PluginKvRowModel| r.scope == scope && r.key == key
}

pub open spec fn set_json(json: Seq<char>, now: Seq<char>) -> spec_fn(
    PluginKvRowModel,
) -> PluginKvRowModel {
    |r: PluginKvRowModel| PluginKvRowModel { value_json: json, updated_at: now, ..r }
}

impl DbModel {
    pub open spec fn plugin_row(self, scope: PlatformPluginScopeKeyModel, key: Seq<char>) -> Option<
        PluginKvRowModel,
    > {
        first(self.plugin_kv, at_key(scope, key))
    }

    pub open spec fn plugin_put_json(
        self,
        scope: PlatformPluginScopeKeyModel,
        key: Seq<char>,
        json: Seq<char>,
        now: Seq<char>,
    ) -> DbModel {
        DbModel {
            plugin_kv: put(
                self.plugin_kv,
                at_key(scope, key),
                set_json(json, now),
                PluginKvRowModel { scope, key, value_json: json, updated_at: now },
            ),
            ..self
        }
    }

    pub open spec fn plugin_delete_key(
        self,
        scope: PlatformPluginScopeKeyModel,
        key: Seq<char>,
    ) -> (DbModel, bool) {
        (
            DbModel { plugin_kv: self.plugin_kv.filter(not(at_key(scope, key))), ..self },
            any(self.plugin_kv, at_key(scope, key)),
        )
    }

    pub open spec fn plugin_delete_scope(self, scope: PlatformPluginScopeKeyModel) -> (
        DbModel,
        nat,
    ) {
        (
            DbModel { plugin_kv: self.plugin_kv.filter(not(in_scope(scope))), ..self },
            count(self.plugin_kv, in_scope(scope)),
        )
    }

    /// The store after a value went from `current` to `next`, where nothing
    /// stands for no value.
    pub open spec fn plugin_update_json(
        self,
        scope: PlatformPluginScopeKeyModel,
        key: Seq<char>,
        current: Option<Seq<char>>,
        next: Option<Seq<char>>,
        now: Seq<char>,
    ) -> DbModel {
        if next == current {
            self
        } else {
            match next {
                Some(json) => self.plugin_put_json(scope, key, json, now),
                None => self.plugin_delete_key(scope, key).0,
            }
        }
    }
}

fn has_scope(r: &PluginKvRow, scope: &PlatformPluginScopeKey) -> (b: bool)
    ensures
        b == in_scope(scope.deep_view())(r.deep_view()),
{
    same(r.scope.plugin_id.as_str(), scope.plugin_id.as_str()) && same(
        r.scope.platform.as_str(),
        scope.platform.as_str(),
    ) && same(r.scope.account_id.as_str(), scope.account_id.as_str()) && same(
        r.scope.conversation_kind.as_str(),
        scope.conversation_kind.as_str(),
    ) && same(r.scope.conversation_id.as_str(), scope.conversation_id.as_str())
}

fn has_scope_and_key(r: &PluginKvRow, scope: &PlatformPluginScopeKey, key: &str) -> (b: bool)
    ensures
        b == at_key(scope.deep_view(), key@)(r.deep_view()),
{
    has_scope(r, scope) && same(r.key.as_str(), key)
}

fn same_option(a: Option<&str>, b: Option<&str>) -> (equal: bool)
    ensures
        equal == (a.deep_view() == b.deep_view()),
{
    match (a, b) {
        (Some(x), Some(y)) => same(x, y),
        (None, None) => true,
        _ => false,
    }
}

impl ConversationDb {
    /// The JSON text of a value, with the time of its last change.
    pub fn plugin_get_json_with_revision(
        &self,
        scope: &PlatformPluginScopeKey,
        key: &str,
    ) -> (found: Option<(String, String)>)
        ensures
            found.deep_view() == match self@.plugin_row(scope.deep_view(), key@) {
                Some(row) => Some((row.value_json, row.updated_at)),
                None => None,
            },
    {
        let matching = |r: &PluginKvRow| -> (b: bool)
            ensures
                b == at_key(scope.deep_view(), key@)(r.deep_view()),
            { has_scope_and_key(r, scope, key) };
        match first_row(&self.plugin_kv, &matching, Ghost(at_key(scope.deep_view(), key@))) {
            Some(row) => Some((row.value_json, row.updated_at)),
            None => None,
        }
    }

    /// The JSON text of a value.
    pub fn plugin_get_json(&self, scope: &PlatformPluginScopeKey, key: &str) -> (json: Option<
        String,
    >)
        ensures
            json.deep_view() == match self@.plugin_row(scope.deep_view(), key@) {
                Some(row) => Some(row.value_json),
                None => None,
            },
    {
        match self.plugin_get_json_with_revision(scope, key) {
            Some((json, _)) => Some(json),
            None => None,
        }
    }

    /// The time of a value's last change.
    pub fn plugin_json_revision(&self, scope: &PlatformPluginScopeKey, key: &str) -> (revision:
        Option<String>)
        ensures
            revision.deep_view() == match self@.plugin_row(scope.deep_view(), key@) {
                Some(row) => Some(row.updated_at),
                None => None,
            },
    {
        match self.plugin_get_json_with_revision(scope, key) {
            Some((_, revision)) => Some(revision),
            None => None,
        }
    }

    /// Stores a JSON text under a scope and a key.
    pub fn plugin_put_json(
        &mut self,
        scope: &PlatformPluginScopeKey,
        key: &str,
        value_json: &str,
        now: &str,
    )
        ensures
            final(self)@ == old(self)@.plugin_put_json(
                scope.deep_view(),
                key@,
                value_json@,
                now@,
            ),
    {
        let matching = |r: &PluginKvRow| -> (b: bool)
            ensures
                b == at_key(scope.deep_view(), key@)(r.deep_view()),
            { has_scope_and_key(r, scope, key) };
        let change = |r: &PluginKvRow| -> (n: PluginKvRow)
            ensures
                n.deep_view() == set_json(value_json@, now@)(r.deep_view()),
            {
                let mut n = r.dup();
                n.value_json = value_json.to_owned();
                n.updated_at = now.to_owned();
                n
            };
        let row = PluginKvRow {
            scope: scope.dup(),
            key: key.to_owned(),
            value_json: value_json.to_owned(),
            updated_at: now.to_owned(),
        };
        put_row(
            &mut self.plugin_kv,
            &matching,
            &change,
            row,
            Ghost(at_key(scope.deep_view(), key@)),
            Ghost(set_json(value_json@, now@)),
        );
    }

    /// Takes a value from `current_json`, as it was read, to `next_json`, as it
    /// is to be. Nothing is written where the two are the same; `None` removes
    /// the value.
    pub fn plugin_update_json(
        &mut self,
        scope: &PlatformPluginScopeKey,
        key: &str,
        current_json: Option<&str>,
        next_json: Option<&str>,
        now: &str,
    )
        ensures
            final(self)@ == old(self)@.plugin_update_json(
                scope.deep_view(),
                key@,
                current_json.deep_view(),
                next_json.deep_view(),
                now@,
            ),
    {
        if same_option(next_json, current_json) {
            return;
        }
        match next_json {
            Some(json) => self.plugin_put_json(scope, key, json, now),
            None => {
                self.plugin_delete_key(scope, key);
            },
        }
    }

    /// Removes a value, and says whether there was one.
    pub fn plugin_delete_key(&mut self, scope: &PlatformPluginScopeKey, key: &str) -> (deleted:
        bool)
        ensures
            (final(self)@, deleted) == old(self)@.plugin_delete_key(scope.deep_view(), key@),
    {
        let matching = |r: &PluginKvRow| -> (b: bool)
            ensures
                b == at_key(scope.deep_view(), key@)(r.deep_view()),
            { has_scope_and_key(r, scope, key) };
        let deleted = exists_row(
            &self.plugin_kv,
            &matching,
            Ghost(at_key(scope.deep_view(), key@)),
        );
        self.plugin_kv = reject(
            &self.plugin_kv,
            &matching,
            Ghost(at_key(scope.deep_view(), key@)),
        );
        deleted
    }

    /// Removes everything in a scope, and says how many values there were.
    pub fn plugin_delete_scope(&mut self, scope: &PlatformPluginScopeKey) -> (deleted: usize)
        ensures
            (final(self)@, deleted as nat) == old(self)@.plugin_delete_scope(scope.deep_view()),
    {
        let inside = |r: &PluginKvRow| -> (b: bool)
            ensures
                b == in_scope(scope.deep_view())(r.deep_view()),
            { has_scope(r, scope) };
        let deleted = count_rows(&self.plugin_kv, &inside, Ghost(in_scope(scope.deep_view())));
        self.plugin_kv = reject(&self.plugin_kv, &inside, Ghost(in_scope(scope.deep_view())));
        deleted
    }
}

} // verus!
