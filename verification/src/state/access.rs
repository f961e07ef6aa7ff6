//! Who may do what on a messaging platform, and who allowed it.

use crate::state::db::{ConversationDb, DbModel};
use crate::state::rows::{AuditRow, AuditRowModel};
use crate::state::types::{
    PlatformAccessActor, PlatformAccessActorModel, PlatformAccessGrant, PlatformAccessGrantKey,
    PlatformAccessGrantKeyModel, PlatformAccessGrantModel,
};
use crate::table::{any, append, exists_row, not, order_by, reject, select, sorted, Row};
use crate::text::{before, precedes, same};
use vstd::prelude::*;

verus! {

pub open spec fn grants_key(key: PlatformAccessGrantKeyModel) -> spec_fn(
    PlatformAccessGrantModel,
) -> bool {
    |r: PlatformAccessGrantModel| r.key == key
}

/// A grant on `platform`, or any grant where none is given.
pub open spec fn grant_on(platform: Option<Seq<char>>) -> spec_fn(
    PlatformAccessGrantModel,
) -> bool {
    |r: PlatformAccessGrantModel|
        match platform {
            Some(name) => r.key.platform == name,
            None => true,
        }
}

/// By platform, then account scope, permission, kind of subject and subject.
pub open spec fn by_grant() -> spec_fn(PlatformAccessGrantModel, PlatformAccessGrantModel) -> bool {
    |a: PlatformAccessGrantModel, b: PlatformAccessGrantModel|
        if a.key.platform != b.key.platform {
            precedes(a.key.platform, b.key.platform)
        } else if a.key.account_scope != b.key.account_scope {
            precedes(a.key.account_scope, b.key.account_scope)
        } else if a.key.permission != b.key.permission {
            precedes(a.key.permission, b.key.permission)
        } else if a.key.subject_kind != b.key.subject_kind {
            precedes(a.key.subject_kind, b.key.subject_kind)
        } else {
            precedes(a.key.subject_id, b.key.subject_id)
        }
}

impl DbModel {
    pub open spec fn has_grant(self, key: PlatformAccessGrantKeyModel) -> bool {
        any(self.grants, grants_key(key))
    }

    pub open spec fn platform_access_grants(self, platform: Option<Seq<char>>) -> Seq<
        PlatformAccessGrantModel,
    > {
        order_by(self.grants.filter(grant_on(platform)), by_grant())
    }

    pub open spec fn audited(
        self,
        operation: Seq<char>,
        key: PlatformAccessGrantKeyModel,
        actor: PlatformAccessActorModel,
        audit_id: Seq<char>,
        now: Seq<char>,
    ) -> DbModel {
        DbModel {
            audit: self.audit.push(
                AuditRowModel { audit_id, operation, key, actor, created_at: now },
            ),
            ..self
        }
    }

    pub open spec fn add_platform_access_grant(
        self,
        key: PlatformAccessGrantKeyModel,
        actor: PlatformAccessActorModel,
        audit_id: Seq<char>,
        now: Seq<char>,
    ) -> (DbModel, bool) {
        if self.has_grant(key) {
            (self, false)
        } else {
            (
                DbModel {
                    grants: self.grants.push(
                        PlatformAccessGrantModel { key, granted_by: actor, created_at: now },
                    ),
                    ..self
                }.audited("grant"@, key, actor, audit_id, now),
                true,
            )
        }
    }

    pub open spec fn remove_platform_access_grant(
        self,
        key: PlatformAccessGrantKeyModel,
        actor: PlatformAccessActorModel,
        audit_id: Seq<char>,
        now: Seq<char>,
    ) -> (DbModel, bool) {
        if self.has_grant(key) {
            (
                DbModel { grants: self.grants.filter(not(grants_key(key))), ..self }.audited(
                    "revoke"@,
                    key,
                    actor,
                    audit_id,
                    now,
                ),
                true,
            )
        } else {
            (self, false)
        }
    }
}

/// Whether two keys are the same.
pub fn same_grant(a: &PlatformAccessGrantKey, b: &PlatformAccessGrantKey) -> (equal: bool)
    ensures
        equal == (a.deep_view() == b.deep_view()),
{
    same(a.platform.as_str(), b.platform.as_str()) && same(
        a.account_scope.as_str(),
        b.account_scope.as_str(),
    ) && same(a.permission.as_str(), b.permission.as_str()) && same(
        a.subject_kind.as_str(),
        b.subject_kind.as_str(),
    ) && same(a.subject_id.as_str(), b.subject_id.as_str())
}

fn earlier_grant(a: &PlatformAccessGrant, b: &PlatformAccessGrant) -> (less: bool)
    ensures
        less == by_grant()(a.deep_view(), b.deep_view()),
{
    if !same(a.key.platform.as_str(), b.key.platform.as_str()) {
        before(a.key.platform.as_str(), b.key.platform.as_str())
    } else if !same(a.key.account_scope.as_str(), b.key.account_scope.as_str()) {
        before(a.key.account_scope.as_str(), b.key.account_scope.as_str())
    } else if !same(a.key.permission.as_str(), b.key.permission.as_str()) {
        before(a.key.permission.as_str(), b.key.permission.as_str())
    } else if !same(a.key.subject_kind.as_str(), b.key.subject_kind.as_str()) {
        before(a.key.subject_kind.as_str(), b.key.subject_kind.as_str())
    } else {
        before(a.key.subject_id.as_str(), b.key.subject_id.as_str())
    }
}

impl ConversationDb {
    fn has_grant(&self, key: &PlatformAccessGrantKey) -> (found: bool)
        ensures
            found == self@.has_grant(key.deep_view()),
    {
        let matching = |r: &PlatformAccessGrant| -> (b: bool)
            ensures
                b == grants_key(key.deep_view())(r.deep_view()),
            { same_grant(&r.key, key) };
        exists_row(&self.grants, &matching, Ghost(grants_key(key.deep_view())))
    }

    fn insert_platform_access_audit(
        &mut self,
        operation: &str,
        key: &PlatformAccessGrantKey,
        actor: &PlatformAccessActor,
        audit_id: &str,
        now: &str,
    )
        ensures
            final(self)@ == old(self)@.audited(
                operation@,
                key.deep_view(),
                actor.deep_view(),
                audit_id@,
                now@,
            ),
    {
        let row = AuditRow {
            audit_id: audit_id.to_owned(),
            operation: operation.to_owned(),
            key: key.dup(),
            actor: actor.dup(),
            created_at: now.to_owned(),
        };
        append(&mut self.audit, row);
    }

    /// The grants on a platform, or all of them, in order.
    pub fn platform_access_grants(&self, platform: Option<&str>) -> (list: Vec<
        PlatformAccessGrant,
    >)
        ensures
            list.deep_view() == self@.platform_access_grants(platform.deep_view()),
    {
        let here = |r: &PlatformAccessGrant| -> (b: bool)
            ensures
                b == grant_on(platform.deep_view())(r.deep_view()),
            {
                match platform {
                    Some(name) => same(r.key.platform.as_str(), name),
                    None => true,
                }
            };
        let rows = select(&self.grants, &here, Ghost(grant_on(platform.deep_view())));
        sorted(&rows, earlier_grant, Ghost(by_grant()))
    }

    /// Grants an access that is not granted yet, notes it in the audit trail,
    /// and says whether there was anything to grant.
    pub fn add_platform_access_grant(
        &mut self,
        key: &PlatformAccessGrantKey,
        actor: &PlatformAccessActor,
        audit_id: &str,
        now: &str,
    ) -> (added: bool)
        ensures
            (final(self)@, added) == old(self)@.add_platform_access_grant(
                key.deep_view(),
                actor.deep_view(),
                audit_id@,
                now@,
            ),
    {
        if self.has_grant(key) {
            return false;
        }
        let row = PlatformAccessGrant {
            key: key.dup(),
            granted_by: actor.dup(),
            created_at: now.to_owned(),
        };
        append(&mut self.grants, row);
        self.insert_platform_access_audit("grant", key, actor, audit_id, now);
        true
    }

    /// Revokes an access, notes it in the audit trail, and says whether there
    /// was anything to revoke.
    pub fn remove_platform_access_grant(
        &mut self,
        key: &PlatformAccessGrantKey,
        actor: &PlatformAccessActor,
        audit_id: &str,
        now: &str,
    ) -> (removed: bool)
        ensures
            (final(self)@, removed) == old(self)@.remove_platform_access_grant(
                key.deep_view(),
                actor.deep_view(),
                audit_id@,
                now@,
            ),
    {
        if !self.has_grant(key) {
            return false;
        }
        let matching = |r: &PlatformAccessGrant| -> (b: bool)
            ensures
                b == grants_key(key.deep_view())(r.deep_view()),
            { same_grant(&r.key, key) };
        self.grants = reject(&self.grants, &matching, Ghost(grants_key(key.deep_view())));
        self.insert_platform_access_audit("revoke", key, actor, audit_id, now);
        true
    }
}

} // verus!
