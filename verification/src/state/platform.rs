//! Conversations of messaging platforms and the sessions that hold them.

use crate::state::db::{outcome, ConversationDb, DbModel};
use crate::state::error::{StateError, StateErrorKind, StateErrorModel};
use crate::state::rows::{BindingRow, BindingRowModel};
use crate::state::sessions::{binds_as, new_session, USER_SESSION_KIND};
use crate::state::types::{
    PlatformSessionBinding, PlatformSessionBindingKey, PlatformSessionBindingKeyModel,
    PlatformSessionBindingModel, SessionRecord, SessionRecordModel,
};
use crate::table::{
    any, append, exists_row, first, first_row, map_rows, not, order_by, put, put_row, reject,
    select, sorted, Row,
};
use crate::text::{before, precedes, same};
use vstd::prelude::*;

verus! {

impl PlatformSessionBindingKeyModel {
    /// The participant, or nothing where the conversation has none of its own.
    pub open spec fn participant(self) -> Seq<char> {
        match self.participant_id {
            Some(id) => id,
            None => Seq::empty(),
        }
    }

    /// Whether two keys name the same conversation.
    pub open spec fn same_conversation(self, other: PlatformSessionBindingKeyModel) -> bool {
        &&& self.platform == other.platform
        &&& self.account_id == other.account_id
        &&& self.conversation_kind == other.conversation_kind
        &&& self.conversation_id == other.conversation_id
        &&& self.participant() == other.participant()
        &&& self.persona == other.persona
    }
}

impl PlatformSessionBindingKey {
    pub fn normalized_participant_id(&self) -> (id: String)
        ensures
            id@ == self.deep_view().participant(),
    {
        match &self.participant_id {
            Some(id) => id.clone(),
            None => String::new(),
        }
    }
}

/// The binding of a conversation.
pub open spec fn of_key(key: PlatformSessionBindingKeyModel) -> spec_fn(BindingRowModel) -> bool {
    |r: BindingRowModel|
        {
            &&& r.platform == key.platform
            &&& r.account_id == key.account_id
            &&& r.conversation_kind == key.conversation_kind
            &&& r.conversation_id == key.conversation_id
            &&& r.participant_id == key.participant()
            &&& r.persona == key.persona
        }
}

/// Whether two bindings are of the same conversation.
pub open spec fn same_conversation(a: BindingRowModel, b: BindingRowModel) -> bool {
    &&& a.platform == b.platform
    &&& a.account_id == b.account_id
    &&& a.conversation_kind == b.conversation_kind
    &&& a.conversation_id == b.conversation_id
    &&& a.participant_id == b.participant_id
    &&& a.persona == b.persona
}

/// Whether the conversation of `row` is bound.
pub(crate) fn is_bound(bindings: &Vec<BindingRow>, row: &BindingRow) -> (yes: bool)
    ensures
        yes == any(bindings.deep_view(), binds_as(row.deep_view())),
{
    let like = |r: &BindingRow| -> (b: bool)
        ensures
            b == binds_as(row.deep_view())(r.deep_view()),
        {
            same(r.platform.as_str(), row.platform.as_str()) && same(
                r.account_id.as_str(),
                row.account_id.as_str(),
            ) && same(r.conversation_kind.as_str(), row.conversation_kind.as_str()) && same(
                r.conversation_id.as_str(),
                row.conversation_id.as_str(),
            ) && same(r.participant_id.as_str(), row.participant_id.as_str()) && same(
                r.persona.as_str(),
                row.persona.as_str(),
            )
        };
    exists_row(bindings, &like, Ghost(binds_as(row.deep_view())))
}

/// The binding of a session to a conversation other than that of `key`.
pub open spec fn of_other_key(
    key: PlatformSessionBindingKeyModel,
    session_id: Seq<char>,
) -> spec_fn(BindingRowModel) -> bool {
    |r: BindingRowModel| r.session_id == session_id && !of_key(key)(r)
}

pub open spec fn rebound(session_id: Seq<char>, now: Seq<char>) -> spec_fn(
    BindingRowModel,
) -> BindingRowModel {
    |r: BindingRowModel| BindingRowModel { session_id, updated_at: now, ..r }
}

pub open spec fn new_binding(
    key: PlatformSessionBindingKeyModel,
    session_id: Seq<char>,
    now: Seq<char>,
) -> BindingRowModel {
    BindingRowModel {
        platform: key.platform,
        account_id: key.account_id,
        conversation_kind: key.conversation_kind,
        conversation_id: key.conversation_id,
        participant_id: key.participant(),
        persona: key.persona,
        session_id,
        created_at: now,
        updated_at: now,
    }
}

pub open spec fn on_platform(persona: Seq<char>, platform: Seq<char>) -> spec_fn(
    BindingRowModel,
) -> bool {
    |r: BindingRowModel| r.persona == persona && r.platform == platform
}

/// By account, then kind, then conversation, then participant.
pub open spec fn by_conversation() -> spec_fn(BindingRowModel, BindingRowModel) -> bool {
    |a: BindingRowModel, b: BindingRowModel|
        if a.account_id != b.account_id {
            precedes(a.account_id, b.account_id)
        } else if a.conversation_kind != b.conversation_kind {
            precedes(a.conversation_kind, b.conversation_kind)
        } else if a.conversation_id != b.conversation_id {
            precedes(a.conversation_id, b.conversation_id)
        } else {
            precedes(a.participant_id, b.participant_id)
        }
}

pub open spec fn as_binding() -> spec_fn(BindingRowModel) -> PlatformSessionBindingModel {
    |r: BindingRowModel|
        PlatformSessionBindingModel {
            key: PlatformSessionBindingKeyModel {
                platform: r.platform,
                account_id: r.account_id,
                conversation_kind: r.conversation_kind,
                conversation_id: r.conversation_id,
                participant_id: if r.participant_id.len() == 0 {
                    None
                } else {
                    Some(r.participant_id)
                },
                persona: r.persona,
            },
            session_id: r.session_id,
        }
}

impl DbModel {
    pub open spec fn bound_session(self, key: PlatformSessionBindingKeyModel) -> Option<Seq<char>> {
        match first(self.bindings, of_key(key)) {
            Some(row) => Some(row.session_id),
            None => None,
        }
    }

    pub open spec fn platform_session_bindings(
        self,
        persona: Seq<char>,
        platform: Seq<char>,
    ) -> Seq<PlatformSessionBindingModel> {
        order_by(
            self.bindings.filter(on_platform(persona, platform)),
            by_conversation(),
        ).map_values(as_binding())
    }

    pub open spec fn create_or_get_platform_session(
        self,
        key: PlatformSessionBindingKeyModel,
        name: Seq<char>,
        session_id: Seq<char>,
        now: Seq<char>,
    ) -> Result<(DbModel, (SessionRecordModel, bool)), StateErrorModel> {
        match self.bound_session(key) {
            Some(bound) => match self.session_record(bound) {
                Some(record) => Ok((self, (record, false))),
                None => Err(StateErrorModel::about(StateErrorKind::MissingRow, bound)),
            },
            None => if self.has_session(session_id) {
                Err(StateErrorModel::about(StateErrorKind::UniqueViolation, session_id))
            } else {
                let row = new_session(
                    session_id,
                    key.persona,
                    name,
                    USER_SESSION_KIND@,
                    None,
                    now,
                );
                Ok(
                    (
                        DbModel {
                            sessions: self.sessions.push(row),
                            bindings: self.bindings.push(new_binding(key, session_id, now)),
                            ..self
                        },
                        (row.record, true),
                    ),
                )
            },
        }
    }

    pub open spec fn bind_platform_session(
        self,
        key: PlatformSessionBindingKeyModel,
        session_id: Seq<char>,
        now: Seq<char>,
    ) -> Result<(DbModel, ()), StateErrorModel> {
        if !self.has_session(session_id) {
            Err(StateErrorModel::about(StateErrorKind::SessionNotFound, session_id))
        } else if any(self.bindings, of_other_key(key, session_id)) {
            Err(StateErrorModel::about(StateErrorKind::SessionBoundElsewhere, session_id))
        } else {
            Ok(
                (
                    DbModel {
                        bindings: put(
                            self.bindings,
                            of_key(key),
                            rebound(session_id, now),
                            new_binding(key, session_id, now),
                        ),
                        ..self
                    },
                    (),
                ),
            )
        }
    }

    pub open spec fn claim_platform_session(
        self,
        key: PlatformSessionBindingKeyModel,
        candidate: Seq<char>,
        now: Seq<char>,
    ) -> Result<(DbModel, Seq<char>), StateErrorModel> {
        match self.bound_session(key) {
            Some(bound) => Ok((self, bound)),
            None => if !self.has_session(candidate) {
                Err(StateErrorModel::about(StateErrorKind::SessionNotFound, candidate))
            } else if self.is_platform_session(candidate) {
                Err(StateErrorModel::about(StateErrorKind::SessionBoundElsewhere, candidate))
            } else {
                Ok(
                    (
                        DbModel {
                            bindings: self.bindings.push(new_binding(key, candidate, now)),
                            ..self
                        },
                        candidate,
                    ),
                )
            },
        }
    }

    pub open spec fn unbind_platform_session(self, key: PlatformSessionBindingKeyModel) -> (
        DbModel,
        bool,
    ) {
        (
            DbModel { bindings: self.bindings.filter(not(of_key(key))), ..self },
            any(self.bindings, of_key(key)),
        )
    }
}

fn has_key(r: &BindingRow, key: &PlatformSessionBindingKey, participant: &str) -> (b: bool)
    requires
        participant@ == key.deep_view().participant(),
    ensures
        b == of_key(key.deep_view())(r.deep_view()),
{
    same(r.platform.as_str(), key.platform.as_str()) && same(
        r.account_id.as_str(),
        key.account_id.as_str(),
    ) && same(r.conversation_kind.as_str(), key.conversation_kind.as_str()) && same(
        r.conversation_id.as_str(),
        key.conversation_id.as_str(),
    ) && same(r.participant_id.as_str(), participant) && same(
        r.persona.as_str(),
        key.persona.as_str(),
    )
}

fn binding_row(
    key: &PlatformSessionBindingKey,
    participant: &str,
    session_id: &str,
    now: &str,
) -> (row: BindingRow)
    requires
        participant@ == key.deep_view().participant(),
    ensures
        row.deep_view() == new_binding(key.deep_view(), session_id@, now@),
{
    BindingRow {
        platform: key.platform.clone(),
        account_id: key.account_id.clone(),
        conversation_kind: key.conversation_kind.clone(),
        conversation_id: key.conversation_id.clone(),
        participant_id: participant.to_owned(),
        persona: key.persona.clone(),
        session_id: session_id.to_owned(),
        created_at: now.to_owned(),
        updated_at: now.to_owned(),
    }
}

fn earlier_conversation(a: &BindingRow, b: &BindingRow) -> (less: bool)
    ensures
        less == by_conversation()(a.deep_view(), b.deep_view()),
{
    if !same(a.account_id.as_str(), b.account_id.as_str()) {
        before(a.account_id.as_str(), b.account_id.as_str())
    } else if !same(a.conversation_kind.as_str(), b.conversation_kind.as_str()) {
        before(a.conversation_kind.as_str(), b.conversation_kind.as_str())
    } else if !same(a.conversation_id.as_str(), b.conversation_id.as_str()) {
        before(a.conversation_id.as_str(), b.conversation_id.as_str())
    } else {
        before(a.participant_id.as_str(), b.participant_id.as_str())
    }
}

fn binding_of(r: &BindingRow) -> (binding: PlatformSessionBinding)
    ensures
        binding.deep_view() == as_binding()(r.deep_view()),
{
    PlatformSessionBinding {
        key: PlatformSessionBindingKey {
            platform: r.platform.clone(),
            account_id: r.account_id.clone(),
            conversation_kind: r.conversation_kind.clone(),
            conversation_id: r.conversation_id.clone(),
            participant_id: if r.participant_id.as_str().is_empty() {
                None
            } else {
                Some(r.participant_id.clone())
            },
            persona: r.persona.clone(),
        },
        session_id: r.session_id.clone(),
    }
}

impl ConversationDb {
    /// The session that holds a conversation, if it has one.
    pub fn find_platform_session_binding(&self, key: &PlatformSessionBindingKey) -> (session:
        Option<String>)
        ensures
            session.deep_view() == self@.bound_session(key.deep_view()),
    {
        let participant = key.normalized_participant_id();
        let matching = |r: &BindingRow| -> (b: bool)
            ensures
                b == of_key(key.deep_view())(r.deep_view()),
            { has_key(r, key, participant.as_str()) };
        match first_row(&self.bindings, &matching, Ghost(of_key(key.deep_view()))) {
            Some(row) => Some(row.session_id),
            None => None,
        }
    }

    /// The bound conversations of a persona on a platform.
    pub fn platform_session_bindings(&self, persona: &str, platform: &str) -> (list: Vec<
        PlatformSessionBinding,
    >)
        ensures
            list.deep_view() == self@.platform_session_bindings(persona@, platform@),
    {
        let here = |r: &BindingRow| -> (b: bool)
            ensures
                b == on_platform(persona@, platform@)(r.deep_view()),
            { same(r.persona.as_str(), persona) && same(r.platform.as_str(), platform) };
        let rows = select(&self.bindings, &here, Ghost(on_platform(persona@, platform@)));
        let rows = sorted(&rows, earlier_conversation, Ghost(by_conversation()));
        map_rows(&rows, binding_of, Ghost(as_binding()))
    }

    /// The session of a conversation, made under `session_id` where the
    /// conversation has none yet; the flag says whether it was made.
    pub fn create_or_get_platform_session(
        &mut self,
        key: &PlatformSessionBindingKey,
        name: &str,
        session_id: &str,
        now: &str,
    ) -> (result: Result<(SessionRecord, bool), StateError>)
        ensures
            outcome(
                result,
                old(self)@,
                final(self)@,
                old(self)@.create_or_get_platform_session(
                    key.deep_view(),
                    name@,
                    session_id@,
                    now@,
                ),
            ),
    {
        if let Some(bound) = self.find_platform_session_binding(key) {
            return match self.session_record(bound.as_str()) {
                Some(record) => Ok((record, false)),
                None => Err(StateError::about(StateErrorKind::MissingRow, bound.as_str())),
            };
        }
        let record = match self.create_session(
            session_id,
            key.persona.as_str(),
            name,
            USER_SESSION_KIND,
            None,
            now,
        ) {
            Ok(record) => record,
            Err(error) => return Err(error),
        };
        let participant = key.normalized_participant_id();
        append(&mut self.bindings, binding_row(key, participant.as_str(), session_id, now));
        Ok((record, true))
    }

    /// Binds a conversation to a session. A conversation may move to another
    /// session, but a session that another conversation owns is never taken
    /// from it.
    pub fn bind_platform_session(
        &mut self,
        key: &PlatformSessionBindingKey,
        session_id: &str,
        now: &str,
    ) -> (result: Result<(), StateError>)
        ensures
            outcome(
                result,
                old(self)@,
                final(self)@,
                old(self)@.bind_platform_session(key.deep_view(), session_id@, now@),
            ),
    {
        if !self.has_session(session_id) {
            return Err(StateError::about(StateErrorKind::SessionNotFound, session_id));
        }
        let participant = key.normalized_participant_id();
        let elsewhere = |r: &BindingRow| -> (b: bool)
            ensures
                b == of_other_key(key.deep_view(), session_id@)(r.deep_view()),
            {
                same(r.session_id.as_str(), session_id) && !has_key(r, key, participant.as_str())
            };
        if exists_row(
            &self.bindings,
            &elsewhere,
            Ghost(of_other_key(key.deep_view(), session_id@)),
        ) {
            return Err(StateError::about(StateErrorKind::SessionBoundElsewhere, session_id));
        }
        let matching = |r: &BindingRow| -> (b: bool)
            ensures
                b == of_key(key.deep_view())(r.deep_view()),
            { has_key(r, key, participant.as_str()) };
        let rebind = |r: &BindingRow| -> (n: BindingRow)
            ensures
                n.deep_view() == rebound(session_id@, now@)(r.deep_view()),
            {
                let mut n = r.dup();
                n.session_id = session_id.to_owned();
                n.updated_at = now.to_owned();
                n
            };
        let row = binding_row(key, participant.as_str(), session_id, now);
        put_row(
            &mut self.bindings,
            &matching,
            &rebind,
            row,
            Ghost(of_key(key.deep_view())),
            Ghost(rebound(session_id@, now@)),
        );
        Ok(())
    }

    /// Binds a conversation to a session unless it is bound already, and says
    /// which session holds it: of several first messages, all find the same.
    pub fn claim_platform_session(
        &mut self,
        key: &PlatformSessionBindingKey,
        candidate_session_id: &str,
        now: &str,
    ) -> (result: Result<String, StateError>)
        ensures
            outcome(
                result,
                old(self)@,
                final(self)@,
                old(self)@.claim_platform_session(key.deep_view(), candidate_session_id@, now@),
            ),
    {
        if let Some(bound) = self.find_platform_session_binding(key) {
            return Ok(bound);
        }
        if !self.has_session(candidate_session_id) {
            return Err(StateError::about(StateErrorKind::SessionNotFound, candidate_session_id));
        }
        if self.is_platform_session(candidate_session_id) {
            return Err(
                StateError::about(StateErrorKind::SessionBoundElsewhere, candidate_session_id),
            );
        }
        let participant = key.normalized_participant_id();
        append(
            &mut self.bindings,
            binding_row(key, participant.as_str(), candidate_session_id, now),
        );
        Ok(candidate_session_id.to_owned())
    }

    /// Frees a conversation, and says whether it was bound.
    pub fn unbind_platform_session(&mut self, key: &PlatformSessionBindingKey) -> (unbound: bool)
        ensures
            (final(self)@, unbound) == old(self)@.unbind_platform_session(key.deep_view()),
    {
        let participant = key.normalized_participant_id();
        let matching = |r: &BindingRow| -> (b: bool)
            ensures
                b == of_key(key.deep_view())(r.deep_view()),
            { has_key(r, key, participant.as_str()) };
        let unbound = exists_row(&self.bindings, &matching, Ghost(of_key(key.deep_view())));
        self.bindings = reject(&self.bindings, &matching, Ghost(of_key(key.deep_view())));
        unbound
    }
}

} // verus!
