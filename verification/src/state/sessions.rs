//! Sessions, and the pointers that say which one is in use.

use crate::language::Language;
use crate::state::db::{outcome, ConversationDb, DbModel};
use crate::state::error::{StateError, StateErrorKind, StateErrorModel};
use crate::state::platform::{is_bound, same_conversation};
use crate::state::rows::{
    AppStateRow, AppStateRowModel, BindingRow, BindingRowModel, PluginKvRow, PluginKvRowModel,
    QueuedPromptRow, QueuedPromptRowModel, SessionRow, SessionRowModel, TurnRow, TurnRowModel,
};
use crate::state::types::{
    SessionOverview, SessionOverviewModel, SessionRecord, SessionRecordModel,
};
use crate::table::{
    any, append, change_where, exists_row, first, first_of, first_row, head_row, last_of, last_row,
    lemma_order_by_len, map_rows, not, order_by, put, put_row, reject, select, sorted, update, Row,
};
use crate::text::{before, chars_of, precedes, same};
use vstd::prelude::*;

verus! {

/// The session that is always there to fall back on.
pub const DEFAULT_SESSION_ID: &'static str = "default";

/// The kind of a session that a user talks in.
pub const USER_SESSION_KIND: &'static str = "user";

/// The pointer of the terminal: shell hook and one-off commands.
pub const CURRENT_SESSION_POINTER: &'static str = "current_session_persona";

/// The pointer of the interactive prompt, which moves on its own.
pub const REPL_SESSION_POINTER: &'static str = "repl_session_persona";

pub open spec fn with_session_id(id: Seq<char>) -> spec_fn(SessionRowModel) -> bool {
    |r: SessionRowModel| r.record.session_id == id
}

pub open spec fn with_persona(persona: Seq<char>) -> spec_fn(SessionRowModel) -> bool {
    |r: SessionRowModel| r.record.persona == persona
}

pub open spec fn set_persona(persona: Seq<char>) -> spec_fn(SessionRowModel) -> SessionRowModel {
    |r: SessionRowModel|
        SessionRowModel { record: SessionRecordModel { persona, ..r.record }, ..r }
}

pub open spec fn set_updated_at(now: Seq<char>) -> spec_fn(SessionRowModel) -> SessionRowModel {
    |r: SessionRowModel|
        SessionRowModel { record: SessionRecordModel { updated_at: now, ..r.record }, ..r }
}

pub open spec fn with_key(key: Seq<char>) -> spec_fn(AppStateRowModel) -> bool {
    |r: AppStateRowModel| r.key == key
}

pub open spec fn set_value(value: Seq<char>) -> spec_fn(AppStateRowModel) -> AppStateRowModel {
    |r: AppStateRowModel| AppStateRowModel { value, ..r }
}

pub open spec fn set_key(key: Seq<char>) -> spec_fn(AppStateRowModel) -> AppStateRowModel {
    |r: AppStateRowModel| AppStateRowModel { key, ..r }
}

pub open spec fn binding_persona(persona: Seq<char>) -> spec_fn(BindingRowModel) -> bool {
    |r: BindingRowModel| r.persona == persona
}

pub open spec fn set_binding_persona(
    persona: Seq<char>,
) -> spec_fn(BindingRowModel) -> BindingRowModel {
    |r: BindingRowModel| BindingRowModel { persona, ..r }
}

/// The binding of the conversation that `row` binds.
pub open spec fn binds_as(row: BindingRowModel) -> spec_fn(BindingRowModel) -> bool {
    |r: BindingRowModel| same_conversation(r, row)
}

/// A binding of the persona `from` whose conversation is bound under `to` too.
pub open spec fn bound_under_both(
    bindings: Seq<BindingRowModel>,
    from: Seq<char>,
    to: Seq<char>,
) -> spec_fn(BindingRowModel) -> bool {
    |r: BindingRowModel|
        r.persona == from && any(bindings, binds_as(set_binding_persona(to)(r)))
}

pub open spec fn binds_session(id: Seq<char>) -> spec_fn(BindingRowModel) -> bool {
    |r: BindingRowModel| r.session_id == id
}

/// A value that the context plugin keeps under `key`, whatever its scope.
pub open spec fn real_context_key(key: Seq<char>) -> spec_fn(PluginKvRowModel) -> bool {
    |r: PluginKvRowModel| r.scope.plugin_id == "real_context"@ && r.key == key
}

pub open spec fn set_plugin_key(key: Seq<char>) -> spec_fn(PluginKvRowModel) -> PluginKvRowModel {
    |r: PluginKvRowModel| PluginKvRowModel { key, ..r }
}

pub open spec fn prompt_of_session(id: Seq<char>) -> spec_fn(QueuedPromptRowModel) -> bool {
    |r: QueuedPromptRowModel| r.session_id == id
}

/// A turn of a session that its users see.
pub open spec fn plain_turn(session_id: Seq<char>) -> spec_fn(TurnRowModel) -> bool {
    |r: TurnRowModel| r.session_id == session_id && !r.hidden && !r.is_summary
}

pub open spec fn by_seq() -> spec_fn(TurnRowModel, TurnRowModel) -> bool {
    |a: TurnRowModel, b: TurnRowModel| a.seq < b.seq
}

pub open spec fn by_user_timestamp() -> spec_fn(TurnRowModel, TurnRowModel) -> bool {
    |a: TurnRowModel, b: TurnRowModel| precedes(a.user_timestamp, b.user_timestamp)
}

pub open spec fn by_newest() -> spec_fn(SessionRowModel, SessionRowModel) -> bool {
    |a: SessionRowModel, b: SessionRowModel| precedes(b.record.updated_at, a.record.updated_at)
}

/// Sessions in use before archived ones, and within each the newest first.
pub open spec fn by_use() -> spec_fn(SessionRowModel, SessionRowModel) -> bool {
    |a: SessionRowModel, b: SessionRowModel|
        {
            ||| !a.record.archived && b.record.archived
            ||| a.record.archived == b.record.archived && precedes(
                b.record.updated_at,
                a.record.updated_at,
            )
        }
}

/// An ASCII capital as the small letter, any other character as it is.
pub open spec fn folded(c: char) -> char {
    if 65 <= c as u32 <= 90 {
        (c as u32 + 32) as char
    } else {
        c
    }
}

/// Whether two texts are equal up to the case of ASCII letters.
pub open spec fn same_folded(a: Seq<char>, b: Seq<char>) -> bool {
    a.len() == b.len() && forall|i: int| 0 <= i < a.len() ==> folded(#[trigger] a[i]) == folded(
        b[i],
    )
}

/// What the session of the terminal is called.
pub open spec fn terminal_session(language: Language) -> Seq<char> {
    language.said("Terminal session"@, "终端集成会话"@)
}

pub(crate) fn terminal_session_name(language: Language) -> (name: &'static str)
    ensures
        name@ == terminal_session(language),
{
    language.text("Terminal session", "终端集成会话")
}

/// The record of a session that has just been made.
pub open spec fn new_session(
    session_id: Seq<char>,
    persona: Seq<char>,
    name: Seq<char>,
    kind: Seq<char>,
    parent_session_id: Option<Seq<char>>,
    now: Seq<char>,
) -> SessionRowModel {
    SessionRowModel {
        record: SessionRecordModel {
            session_id,
            persona,
            name,
            kind,
            parent_session_id,
            workspace: None,
            archived: false,
            created_at: now,
            updated_at: now,
        },
        model_override: None,
        last_request_at: None,
        total_tokens: 0,
        prompt_tokens: 0,
        cache_read_tokens: None,
    }
}

impl DbModel {
    pub open spec fn has_session(self, id: Seq<char>) -> bool {
        any(self.sessions, with_session_id(id))
    }

    pub open spec fn session_row(self, id: Seq<char>) -> Option<SessionRowModel> {
        first(self.sessions, with_session_id(id))
    }

    pub open spec fn session_record(self, id: Seq<char>) -> Option<SessionRecordModel> {
        match self.session_row(id) {
            Some(row) => Some(row.record),
            None => None,
        }
    }

    pub open spec fn app_value(self, key: Seq<char>) -> Option<Seq<char>> {
        match first(self.app_state, with_key(key)) {
            Some(row) => Some(row.value),
            None => None,
        }
    }

    pub open spec fn with_app_value(self, key: Seq<char>, value: Seq<char>) -> DbModel {
        DbModel {
            app_state: put(
                self.app_state,
                with_key(key),
                set_value(value),
                AppStateRowModel { key, value },
            ),
            ..self
        }
    }

    /// The session that the terminal points at, where that session exists.
    pub open spec fn current_session(self) -> Option<Seq<char>> {
        match self.app_value("current_session"@) {
            Some(id) => if self.has_session(id) {
                Some(id)
            } else {
                None
            },
            None => None,
        }
    }

    /// The store with the default session made, where it is missing, and
    /// pointed at.
    pub open spec fn on_default_session(self, now: Seq<char>, language: Language) -> DbModel {
        let made = if self.has_session(DEFAULT_SESSION_ID@) {
            self
        } else {
            DbModel {
                sessions: self.sessions.push(
                    new_session(
                        DEFAULT_SESSION_ID@,
                        Seq::empty(),
                        terminal_session(language),
                        USER_SESSION_KIND@,
                        None,
                        now,
                    ),
                ),
                ..self
            }
        };
        made.with_app_value("current_session"@, DEFAULT_SESSION_ID@)
    }

    pub open spec fn resolve_current_session(self, now: Seq<char>, language: Language) -> (
        DbModel,
        Seq<char>,
    ) {
        match self.current_session() {
            Some(id) => (self, id),
            None => (self.on_default_session(now, language), DEFAULT_SESSION_ID@),
        }
    }

    pub open spec fn set_current_session(self, id: Seq<char>) -> Result<
        (DbModel, ()),
        StateErrorModel,
    > {
        if self.has_session(id) {
            Ok((self.with_app_value("current_session"@, id), ()))
        } else {
            Err(StateErrorModel::about(StateErrorKind::SessionNotFound, id))
        }
    }

    /// The session that the pointer `prefix` of a persona leads to, unless the
    /// caller must not land there: it belongs to another persona, is no user
    /// session, is archived, or is gone.
    pub open spec fn pointed_session(self, prefix: Seq<char>, persona: Seq<char>) -> Option<
        Seq<char>,
    > {
        match self.app_value(prefix + ":"@ + persona) {
            Some(id) => if any(self.sessions, open_user_session(id, persona)) {
                Some(id)
            } else {
                None
            },
            None => None,
        }
    }

    pub open spec fn with_pointer(
        self,
        prefix: Seq<char>,
        persona: Seq<char>,
        session_id: Seq<char>,
    ) -> DbModel {
        self.with_app_value(prefix + ":"@ + persona, session_id)
    }

    pub open spec fn adopted_by(self, persona: Seq<char>) -> DbModel {
        DbModel {
            sessions: change_where(
                self.sessions,
                with_persona(Seq::empty()),
                set_persona(persona),
            ),
            ..self
        }
    }

    /// The store with everything of the persona `from` under the name `to`.
    pub open spec fn persona_renamed(self, from: Seq<char>, to: Seq<char>) -> DbModel {
        let pointer = CURRENT_SESSION_POINTER@ + ":"@;
        let affection = "affection_profile:"@;
        DbModel {
            bindings: change_where(self.bindings, binding_persona(from), set_binding_persona(to)),
            sessions: change_where(self.sessions, with_persona(from), set_persona(to)),
            app_state: change_where(
                self.app_state,
                with_key(pointer + from),
                set_key(pointer + to),
            ),
            plugin_kv: change_where(
                self.plugin_kv,
                real_context_key(affection + from),
                set_plugin_key(affection + to),
            ),
            ..self
        }
    }

    pub open spec fn rename_persona_scope(self, from: Seq<char>, to: Seq<char>) -> Result<
        (DbModel, ()),
        StateErrorModel,
    > {
        if from == to {
            Ok((self, ()))
        } else if any(self.sessions, with_persona(to)) {
            Err(StateErrorModel::about(StateErrorKind::PersonaHasSessions, to))
        } else if any(self.app_state, with_key(CURRENT_SESSION_POINTER@ + ":"@ + to)) {
            Err(StateErrorModel::about(StateErrorKind::PersonaHasPointer, to))
        } else if any(self.plugin_kv, real_context_key("affection_profile:"@ + to)) {
            Err(StateErrorModel::about(StateErrorKind::PersonaHasAffection, to))
        } else if any(self.bindings, bound_under_both(self.bindings, from, to)) {
            Err(StateErrorModel::about(StateErrorKind::UniqueViolation, to))
        } else {
            Ok((self.persona_renamed(from, to), ()))
        }
    }

    pub open spec fn without_persona(self, persona: Seq<char>) -> DbModel {
        let cut = self.without_sessions(with_persona(persona));
        DbModel {
            app_state: cut.app_state.filter(
                not(with_key(CURRENT_SESSION_POINTER@ + ":"@ + persona)),
            ),
            plugin_kv: cut.plugin_kv.filter(
                not(real_context_key("affection_profile:"@ + persona)),
            ),
            ..cut
        }
    }

    pub open spec fn is_platform_session(self, id: Seq<char>) -> bool {
        any(self.bindings, binds_session(id))
    }

    /// A user session of a persona; with `local_only`, one that no messaging
    /// platform owns.
    pub open spec fn listed(self, persona: Seq<char>, local_only: bool) -> spec_fn(
        SessionRowModel,
    ) -> bool {
        |r: SessionRowModel|
            {
                &&& r.record.persona == persona
                &&& r.record.kind == USER_SESSION_KIND@
                &&& !local_only || !self.is_platform_session(r.record.session_id)
            }
    }

    pub open spec fn listed_as(self, persona: Seq<char>, name: Seq<char>, local_only: bool) -> spec_fn(
        SessionRowModel,
    ) -> bool {
        |r: SessionRowModel|
            self.listed(persona, local_only)(r) && same_folded(r.record.name, name)
    }

    pub open spec fn overview(self) -> spec_fn(SessionRowModel) -> SessionOverviewModel {
        |r: SessionRowModel|
            {
                let turns = self.turns.filter(plain_turn(r.record.session_id));
                SessionOverviewModel {
                    record: r.record,
                    turn_count: turns.len() as usize,
                    last_user_content: match last_of(order_by(turns, by_seq())) {
                        Some(turn) => Some(turn.display_content),
                        None => None,
                    },
                }
            }
    }

    pub open spec fn list_sessions(self, persona: Seq<char>, local_only: bool) -> Seq<
        SessionOverviewModel,
    > {
        order_by(self.sessions.filter(self.listed(persona, local_only)), by_newest()).map_values(
            self.overview(),
        )
    }

    pub open spec fn find_session_by_name(
        self,
        persona: Seq<char>,
        name: Seq<char>,
        local_only: bool,
    ) -> Option<SessionRecordModel> {
        match first_of(
            order_by(self.sessions.filter(self.listed_as(persona, name, local_only)), by_use()),
        ) {
            Some(row) => Some(row.record),
            None => None,
        }
    }

    pub open spec fn oldest_visible_turn_timestamp(
        self,
        session_id: Seq<char>,
        excluding_turn_id: Seq<char>,
    ) -> Option<Seq<char>> {
        match first_of(
            order_by(
                self.turns.filter(plain_turn_except(session_id, excluding_turn_id)),
                by_user_timestamp(),
            ),
        ) {
            Some(turn) => Some(turn.user_timestamp),
            None => None,
        }
    }

    pub open spec fn create_session(
        self,
        session_id: Seq<char>,
        persona: Seq<char>,
        name: Seq<char>,
        kind: Seq<char>,
        parent_session_id: Option<Seq<char>>,
        now: Seq<char>,
    ) -> Result<(DbModel, SessionRecordModel), StateErrorModel> {
        let row = new_session(session_id, persona, name, kind, parent_session_id, now);
        if self.has_session(session_id) {
            Err(StateErrorModel::about(StateErrorKind::UniqueViolation, session_id))
        } else {
            Ok((DbModel { sessions: self.sessions.push(row), ..self }, row.record))
        }
    }

    pub open spec fn delete_session(self, id: Seq<char>) -> Result<(DbModel, ()), StateErrorModel> {
        if self.has_session(id) {
            Ok(
                (
                    DbModel {
                        queued_prompts: self.queued_prompts.filter(not(prompt_of_session(id))),
                        ..self
                    }.without_sessions(with_session_id(id)),
                    (),
                ),
            )
        } else {
            Err(StateErrorModel::about(StateErrorKind::SessionNotFound, id))
        }
    }

    pub open spec fn touch_session(self, id: Seq<char>, now: Seq<char>) -> DbModel {
        DbModel {
            sessions: change_where(self.sessions, with_session_id(id), set_updated_at(now)),
            ..self
        }
    }
}

pub open spec fn open_user_session(id: Seq<char>, persona: Seq<char>) -> spec_fn(
    SessionRowModel,
) -> bool {
    |r: SessionRowModel|
        {
            &&& r.record.session_id == id
            &&& r.record.persona == persona
            &&& r.record.kind == USER_SESSION_KIND@
            &&& !r.record.archived
        }
}

pub open spec fn plain_turn_except(session_id: Seq<char>, turn_id: Seq<char>) -> spec_fn(
    TurnRowModel,
) -> bool {
    |r: TurnRowModel| plain_turn(session_id)(r) && r.turn_id != turn_id
}

/// Whether two texts are equal up to the case of ASCII letters.
pub fn same_but_case(a: &str, b: &str) -> (equal: bool)
    ensures
        equal == same_folded(a@, b@),
{
    let x = chars_of(a);
    let y = chars_of(b);
    if x.len() != y.len() {
        return false;
    }
    let mut i: usize = 0;
    while i < x.len()
        invariant
            i <= x.len(),
            x.len() == y.len(),
            x@ == a@,
            y@ == b@,
            forall|j: int| 0 <= j < i ==> folded(#[trigger] x@[j]) == folded(y@[j]),
        decreases x.len() - i,
    {
        if fold(x[i]) != fold(y[i]) {
            assert(folded(a@[i as int]) != folded(b@[i as int]));
            return false;
        }
        i += 1;
    }
    true
}

/// An ASCII capital as the small letter, any other character as it is.
pub fn fold(c: char) -> (out: char)
    ensures
        out == folded(c),
{
    let n: u32 = c as u32;
    if 65 <= n && n <= 90 {
        (n as u8 + 32) as char
    } else {
        c
    }
}

/// `prefix`, a colon and `persona`.
fn pointer_key(prefix: &str, persona: &str) -> (key: String)
    ensures
        key@ == prefix@ + ":"@ + persona@,
{
    prefix.to_owned().concat(":").concat(persona)
}

fn affection_key(persona: &str) -> (key: String)
    ensures
        key@ == "affection_profile:"@ + persona@,
{
    "affection_profile:".to_owned().concat(persona)
}

impl ConversationDb {
    pub fn has_session(&self, session_id: &str) -> (found: bool)
        ensures
            found == self@.has_session(session_id@),
    {
        let matching = |r: &SessionRow| -> (b: bool)
            ensures
                b == with_session_id(session_id@)(r.deep_view()),
            { same(r.record.session_id.as_str(), session_id) };
        exists_row(&self.sessions, &matching, Ghost(with_session_id(session_id@)))
    }

    pub(crate) fn session_row(&self, session_id: &str) -> (row: Option<SessionRow>)
        ensures
            row.deep_view() == self@.session_row(session_id@),
    {
        let matching = |r: &SessionRow| -> (b: bool)
            ensures
                b == with_session_id(session_id@)(r.deep_view()),
            { same(r.record.session_id.as_str(), session_id) };
        first_row(&self.sessions, &matching, Ghost(with_session_id(session_id@)))
    }

    fn app_value(&self, key: &str) -> (value: Option<String>)
        ensures
            value.deep_view() == self@.app_value(key@),
    {
        let matching = |r: &AppStateRow| -> (b: bool)
            ensures
                b == with_key(key@)(r.deep_view()),
            { same(r.key.as_str(), key) };
        match first_row(&self.app_state, &matching, Ghost(with_key(key@))) {
            Some(row) => Some(row.value),
            None => None,
        }
    }

    fn set_app_value(&mut self, key: &str, value: &str)
        ensures
            final(self)@ == old(self)@.with_app_value(key@, value@),
    {
        let matching = |r: &AppStateRow| -> (b: bool)
            ensures
                b == with_key(key@)(r.deep_view()),
            { same(r.key.as_str(), key) };
        let change = |r: &AppStateRow| -> (n: AppStateRow)
            ensures
                n.deep_view() == set_value(value@)(r.deep_view()),
            { AppStateRow { key: r.key.clone(), value: value.to_owned() } };
        let row = AppStateRow { key: key.to_owned(), value: value.to_owned() };
        put_row(
            &mut self.app_state,
            &matching,
            &change,
            row,
            Ghost(with_key(key@)),
            Ghost(set_value(value@)),
        );
    }

    /// The session that the terminal is in. A missing pointer, or one that
    /// leads nowhere, is set to the default session, which is made if need be.
    pub fn resolve_current_session(&mut self, now: &str, language: Language) -> (session_id:
        String)
        ensures
            (final(self)@, session_id@) == old(self)@.resolve_current_session(now@, language),
    {
        if let Some(session_id) = self.app_value("current_session") {
            if self.has_session(session_id.as_str()) {
                return session_id;
            }
        }
        if !self.has_session(DEFAULT_SESSION_ID) {
            let row = SessionRow {
                record: SessionRecord {
                    session_id: DEFAULT_SESSION_ID.to_owned(),
                    persona: String::new(),
                    name: terminal_session_name(language).to_owned(),
                    kind: USER_SESSION_KIND.to_owned(),
                    parent_session_id: None,
                    workspace: None,
                    archived: false,
                    created_at: now.to_owned(),
                    updated_at: now.to_owned(),
                },
                model_override: None,
                last_request_at: None,
                total_tokens: 0,
                prompt_tokens: 0,
                cache_read_tokens: None,
            };
            append(&mut self.sessions, row);
        }
        self.set_app_value("current_session", DEFAULT_SESSION_ID);
        DEFAULT_SESSION_ID.to_owned()
    }

    /// Points the terminal at a session, which must exist.
    pub fn set_current_session(&mut self, session_id: &str) -> (result: Result<(), StateError>)
        ensures
            outcome(
                result,
                old(self)@,
                final(self)@,
                old(self)@.set_current_session(session_id@),
            ),
    {
        if !self.has_session(session_id) {
            return Err(StateError::about(StateErrorKind::SessionNotFound, session_id));
        }
        self.set_app_value("current_session", session_id);
        Ok(())
    }

    fn persona_session_pointer(&self, prefix: &str, persona: &str) -> (session: Option<String>)
        ensures
            session.deep_view() == self@.pointed_session(prefix@, persona@),
    {
        let key = pointer_key(prefix, persona);
        let session_id = match self.app_value(key.as_str()) {
            Some(session_id) => session_id,
            None => return None,
        };
        let matching = |r: &SessionRow| -> (b: bool)
            ensures
                b == open_user_session(session_id@, persona@)(r.deep_view()),
            {
                same(r.record.session_id.as_str(), session_id.as_str()) && same(
                    r.record.persona.as_str(),
                    persona,
                ) && same(r.record.kind.as_str(), USER_SESSION_KIND) && !r.record.archived
            };
        if exists_row(&self.sessions, &matching, Ghost(open_user_session(session_id@, persona@))) {
            Some(session_id)
        } else {
            None
        }
    }

    fn set_persona_session_pointer(&mut self, prefix: &str, persona: &str, session_id: &str)
        ensures
            final(self)@ == old(self)@.with_pointer(prefix@, persona@, session_id@),
    {
        let key = pointer_key(prefix, persona);
        self.set_app_value(key.as_str(), session_id);
    }

    pub fn persona_current_session(&self, persona: &str) -> (session: Option<String>)
        ensures
            session.deep_view() == self@.pointed_session(CURRENT_SESSION_POINTER@, persona@),
    {
        self.persona_session_pointer(CURRENT_SESSION_POINTER, persona)
    }

    pub fn set_persona_current_session(&mut self, persona: &str, session_id: &str)
        ensures
            final(self)@ == old(self)@.with_pointer(
                CURRENT_SESSION_POINTER@,
                persona@,
                session_id@,
            ),
    {
        self.set_persona_session_pointer(CURRENT_SESSION_POINTER, persona, session_id)
    }

    /// The session that the interactive prompt reopens.
    pub fn repl_session(&self, persona: &str) -> (session: Option<String>)
        ensures
            session.deep_view() == self@.pointed_session(REPL_SESSION_POINTER@, persona@),
    {
        self.persona_session_pointer(REPL_SESSION_POINTER, persona)
    }

    pub fn set_repl_session(&mut self, persona: &str, session_id: &str)
        ensures
            final(self)@ == old(self)@.with_pointer(REPL_SESSION_POINTER@, persona@, session_id@),
    {
        self.set_persona_session_pointer(REPL_SESSION_POINTER, persona, session_id)
    }

    fn move_sessions(&mut self, from: &str, to: &str)
        ensures
            final(self)@ == (DbModel {
                sessions: change_where(
                    old(self)@.sessions,
                    with_persona(from@),
                    set_persona(to@),
                ),
                ..old(self)@
            }),
    {
        let matching = |r: &SessionRow| -> (b: bool)
            ensures
                b == with_persona(from@)(r.deep_view()),
            { same(r.record.persona.as_str(), from) };
        let change = |r: &SessionRow| -> (n: SessionRow)
            ensures
                n.deep_view() == set_persona(to@)(r.deep_view()),
            {
                let mut n = r.dup();
                n.record.persona = to.to_owned();
                n
            };
        self.sessions = update(
            &self.sessions,
            &matching,
            &change,
            Ghost(with_persona(from@)),
            Ghost(set_persona(to@)),
        );
    }

    /// Gives the sessions that belong to no persona to `persona`.
    pub fn adopt_sessions_for_persona(&mut self, persona: &str)
        ensures
            final(self)@ == old(self)@.adopted_by(persona@),
    {
        proof {
            reveal_strlit("");
            assert(""@ =~= Seq::<char>::empty());
        }
        self.move_sessions("", persona);
    }

    /// Moves everything of a persona to a new name. It is refused where something
    /// bears that name already, or where a conversation would be bound twice.
    pub fn rename_persona_scope(&mut self, old_scope: &str, new_scope: &str) -> (result: Result<
        (),
        StateError,
    >)
        ensures
            outcome(
                result,
                old(self)@,
                final(self)@,
                old(self)@.rename_persona_scope(old_scope@, new_scope@),
            ),
    {
        if same(old_scope, new_scope) {
            return Ok(());
        }
        let taken = |r: &SessionRow| -> (b: bool)
            ensures
                b == with_persona(new_scope@)(r.deep_view()),
            { same(r.record.persona.as_str(), new_scope) };
        if exists_row(&self.sessions, &taken, Ghost(with_persona(new_scope@))) {
            return Err(StateError::about(StateErrorKind::PersonaHasSessions, new_scope));
        }
        let old_key = pointer_key(CURRENT_SESSION_POINTER, old_scope);
        let new_key = pointer_key(CURRENT_SESSION_POINTER, new_scope);
        let pointed = |r: &AppStateRow| -> (b: bool)
            ensures
                b == with_key(new_key@)(r.deep_view()),
            { same(r.key.as_str(), new_key.as_str()) };
        if exists_row(&self.app_state, &pointed, Ghost(with_key(new_key@))) {
            return Err(StateError::about(StateErrorKind::PersonaHasPointer, new_scope));
        }
        let old_affection = affection_key(old_scope);
        let new_affection = affection_key(new_scope);
        let liked = |r: &PluginKvRow| -> (b: bool)
            ensures
                b == real_context_key(new_affection@)(r.deep_view()),
            {
                same(r.scope.plugin_id.as_str(), "real_context") && same(
                    r.key.as_str(),
                    new_affection.as_str(),
                )
            };
        if exists_row(&self.plugin_kv, &liked, Ghost(real_context_key(new_affection@))) {
            return Err(StateError::about(StateErrorKind::PersonaHasAffection, new_scope));
        }
        let bindings = &self.bindings;
        let twice = |r: &BindingRow| -> (b: bool)
            ensures
                b == bound_under_both(bindings.deep_view(), old_scope@, new_scope@)(r.deep_view()),
            {
                let mut n = r.dup();
                n.persona = new_scope.to_owned();
                same(r.persona.as_str(), old_scope) && is_bound(bindings, &n)
            };
        if exists_row(
            bindings,
            &twice,
            Ghost(bound_under_both(bindings.deep_view(), old_scope@, new_scope@)),
        ) {
            return Err(StateError::about(StateErrorKind::UniqueViolation, new_scope));
        }
        let bound = |r: &BindingRow| -> (b: bool)
            ensures
                b == binding_persona(old_scope@)(r.deep_view()),
            { same(r.persona.as_str(), old_scope) };
        let rebind = |r: &BindingRow| -> (n: BindingRow)
            ensures
                n.deep_view() == set_binding_persona(new_scope@)(r.deep_view()),
            {
                let mut n = r.dup();
                n.persona = new_scope.to_owned();
                n
            };
        self.bindings = update(
            &self.bindings,
            &bound,
            &rebind,
            Ghost(binding_persona(old_scope@)),
            Ghost(set_binding_persona(new_scope@)),
        );
        self.move_sessions(old_scope, new_scope);
        let pointing = |r: &AppStateRow| -> (b: bool)
            ensures
                b == with_key(old_key@)(r.deep_view()),
            { same(r.key.as_str(), old_key.as_str()) };
        let repoint = |r: &AppStateRow| -> (n: AppStateRow)
            ensures
                n.deep_view() == set_key(new_key@)(r.deep_view()),
            { AppStateRow { key: new_key.clone(), value: r.value.clone() } };
        self.app_state = update(
            &self.app_state,
            &pointing,
            &repoint,
            Ghost(with_key(old_key@)),
            Ghost(set_key(new_key@)),
        );
        let liking = |r: &PluginKvRow| -> (b: bool)
            ensures
                b == real_context_key(old_affection@)(r.deep_view()),
            {
                same(r.scope.plugin_id.as_str(), "real_context") && same(
                    r.key.as_str(),
                    old_affection.as_str(),
                )
            };
        let relike = |r: &PluginKvRow| -> (n: PluginKvRow)
            ensures
                n.deep_view() == set_plugin_key(new_affection@)(r.deep_view()),
            {
                let mut n = r.dup();
                n.key = new_affection.clone();
                n
            };
        self.plugin_kv = update(
            &self.plugin_kv,
            &liking,
            &relike,
            Ghost(real_context_key(old_affection@)),
            Ghost(set_plugin_key(new_affection@)),
        );
        Ok(())
    }

    /// Removes the sessions of a persona, its pointer and its affection state.
    pub fn delete_persona_scope(&mut self, scope: &str)
        ensures
            final(self)@ == old(self)@.without_persona(scope@),
    {
        let of_persona = |r: &SessionRow| -> (b: bool)
            ensures
                b == with_persona(scope@)(r.deep_view()),
            { same(r.record.persona.as_str(), scope) };
        self.delete_sessions(&of_persona, Ghost(with_persona(scope@)));
        let key = pointer_key(CURRENT_SESSION_POINTER, scope);
        let pointing = |r: &AppStateRow| -> (b: bool)
            ensures
                b == with_key(key@)(r.deep_view()),
            { same(r.key.as_str(), key.as_str()) };
        self.app_state = reject(&self.app_state, &pointing, Ghost(with_key(key@)));
        let affection = affection_key(scope);
        let liking = |r: &PluginKvRow| -> (b: bool)
            ensures
                b == real_context_key(affection@)(r.deep_view()),
            {
                same(r.scope.plugin_id.as_str(), "real_context") && same(
                    r.key.as_str(),
                    affection.as_str(),
                )
            };
        self.plugin_kv = reject(&self.plugin_kv, &liking, Ghost(real_context_key(affection@)));
    }

    pub fn session_record(&self, session_id: &str) -> (record: Option<SessionRecord>)
        ensures
            record.deep_view() == self@.session_record(session_id@),
    {
        match self.session_row(session_id) {
            Some(row) => Some(row.record),
            None => None,
        }
    }

    /// Whether a messaging platform owns a session.
    pub fn is_platform_session(&self, session_id: &str) -> (bound: bool)
        ensures
            bound == self@.is_platform_session(session_id@),
    {
        let binding = |r: &BindingRow| -> (b: bool)
            ensures
                b == binds_session(session_id@)(r.deep_view()),
            { same(r.session_id.as_str(), session_id) };
        exists_row(&self.bindings, &binding, Ghost(binds_session(session_id@)))
    }

    fn is_listed(&self, r: &SessionRow, persona: &str, local_only: bool) -> (b: bool)
        ensures
            b == self@.listed(persona@, local_only)(r.deep_view()),
    {
        same(r.record.persona.as_str(), persona) && same(r.record.kind.as_str(), USER_SESSION_KIND)
            && (!local_only || !self.is_platform_session(r.record.session_id.as_str()))
    }

    /// The turns of a session that its users see, oldest first.
    pub(crate) fn plain_turns(&self, session_id: &str) -> (turns: Vec<TurnRow>)
        ensures
            turns.deep_view() == order_by(self@.turns.filter(plain_turn(session_id@)), by_seq()),
    {
        let plain = |r: &TurnRow| -> (b: bool)
            ensures
                b == plain_turn(session_id@)(r.deep_view()),
            { same(r.session_id.as_str(), session_id) && !r.hidden && !r.is_summary };
        let turns = select(&self.turns, &plain, Ghost(plain_turn(session_id@)));
        sort_by_seq(&turns)
    }

    fn overview(&self, r: &SessionRow) -> (overview: SessionOverview)
        ensures
            overview.deep_view() == self@.overview()(r.deep_view()),
    {
        let turns = self.plain_turns(r.record.session_id.as_str());
        proof {
            lemma_order_by_len(
                self@.turns.filter(plain_turn(r.deep_view().record.session_id)),
                by_seq(),
            );
        }
        SessionOverview {
            record: r.record.dup(),
            turn_count: turns.len(),
            last_user_content: match last_row(&turns) {
                Some(turn) => Some(turn.display_content),
                None => None,
            },
        }
    }

    fn list_sessions_filtered(&self, persona: &str, local_only: bool) -> (list: Vec<
        SessionOverview,
    >)
        ensures
            list.deep_view() == self@.list_sessions(persona@, local_only),
    {
        let listed = |r: &SessionRow| -> (b: bool)
            ensures
                b == self@.listed(persona@, local_only)(r.deep_view()),
            { self.is_listed(r, persona, local_only) };
        let rows = select(&self.sessions, &listed, Ghost(self@.listed(persona@, local_only)));
        let newer = |a: &SessionRow, b: &SessionRow| -> (less: bool)
            ensures
                less == by_newest()(a.deep_view(), b.deep_view()),
            { before(b.record.updated_at.as_str(), a.record.updated_at.as_str()) };
        let rows = sorted(&rows, &newer, Ghost(by_newest()));
        let overview = |r: &SessionRow| -> (o: SessionOverview)
            ensures
                o.deep_view() == self@.overview()(r.deep_view()),
            { self.overview(r) };
        map_rows(&rows, &overview, Ghost(self@.overview()))
    }

    /// The user sessions of a persona, most recently updated first.
    pub fn list_sessions(&self, persona: &str) -> (list: Vec<SessionOverview>)
        ensures
            list.deep_view() == self@.list_sessions(persona@, false),
    {
        self.list_sessions_filtered(persona, false)
    }

    /// The user sessions of a persona that no messaging platform owns.
    pub fn list_local_sessions(&self, persona: &str) -> (list: Vec<SessionOverview>)
        ensures
            list.deep_view() == self@.list_sessions(persona@, true),
    {
        self.list_sessions_filtered(persona, true)
    }

    /// When the oldest visible turn but `excluding_turn_id` was asked.
    pub fn oldest_visible_turn_timestamp(
        &self,
        session_id: &str,
        excluding_turn_id: &str,
    ) -> (timestamp: Option<String>)
        ensures
            timestamp.deep_view() == self@.oldest_visible_turn_timestamp(
                session_id@,
                excluding_turn_id@,
            ),
    {
        let other = |r: &TurnRow| -> (b: bool)
            ensures
                b == plain_turn_except(session_id@, excluding_turn_id@)(r.deep_view()),
            {
                same(r.session_id.as_str(), session_id) && !r.hidden && !r.is_summary && !same(
                    r.turn_id.as_str(),
                    excluding_turn_id,
                )
            };
        let turns = select(
            &self.turns,
            &other,
            Ghost(plain_turn_except(session_id@, excluding_turn_id@)),
        );
        let older = |a: &TurnRow, b: &TurnRow| -> (less: bool)
            ensures
                less == by_user_timestamp()(a.deep_view(), b.deep_view()),
            { before(a.user_timestamp.as_str(), b.user_timestamp.as_str()) };
        let turns = sorted(&turns, &older, Ghost(by_user_timestamp()));
        match head_row(&turns) {
            Some(turn) => Some(turn.user_timestamp),
            None => None,
        }
    }

    /// Makes a session under an id that is not taken.
    pub fn create_session(
        &mut self,
        session_id: &str,
        persona: &str,
        name: &str,
        kind: &str,
        parent_session_id: Option<&str>,
        now: &str,
    ) -> (result: Result<SessionRecord, StateError>)
        ensures
            outcome(
                result,
                old(self)@,
                final(self)@,
                old(self)@.create_session(
                    session_id@,
                    persona@,
                    name@,
                    kind@,
                    parent_session_id.deep_view(),
                    now@,
                ),
            ),
    {
        if self.has_session(session_id) {
            return Err(StateError::about(StateErrorKind::UniqueViolation, session_id));
        }
        let record = SessionRecord {
            session_id: session_id.to_owned(),
            persona: persona.to_owned(),
            name: name.to_owned(),
            kind: kind.to_owned(),
            parent_session_id: match parent_session_id {
                Some(parent) => Some(parent.to_owned()),
                None => None,
            },
            workspace: None,
            archived: false,
            created_at: now.to_owned(),
            updated_at: now.to_owned(),
        };
        let row = SessionRow {
            record: record.dup(),
            model_override: None,
            last_request_at: None,
            total_tokens: 0,
            prompt_tokens: 0,
            cache_read_tokens: None,
        };
        append(&mut self.sessions, row);
        Ok(record)
    }

    /// The session's own model pool, where it has one.
    pub fn session_model_override(&self, session_id: &str) -> (pool: Option<String>)
        ensures
            pool.deep_view() == match self@.session_row(session_id@) {
                Some(row) => row.model_override,
                None => None,
            },
    {
        match self.session_row(session_id) {
            Some(row) => row.model_override,
            None => None,
        }
    }

    /// Removes a session with its queued prompts, its turns and its bindings.
    pub fn delete_session(&mut self, session_id: &str) -> (result: Result<(), StateError>)
        ensures
            outcome(result, old(self)@, final(self)@, old(self)@.delete_session(session_id@)),
    {
        if !self.has_session(session_id) {
            return Err(StateError::about(StateErrorKind::SessionNotFound, session_id));
        }
        let waiting = |r: &QueuedPromptRow| -> (b: bool)
            ensures
                b == prompt_of_session(session_id@)(r.deep_view()),
            { same(r.session_id.as_str(), session_id) };
        self.queued_prompts = reject(
            &self.queued_prompts,
            &waiting,
            Ghost(prompt_of_session(session_id@)),
        );
        let matching = |r: &SessionRow| -> (b: bool)
            ensures
                b == with_session_id(session_id@)(r.deep_view()),
            { same(r.record.session_id.as_str(), session_id) };
        self.delete_sessions(&matching, Ghost(with_session_id(session_id@)));
        Ok(())
    }

    /// Notes that a session was used.
    pub fn touch_session(&mut self, session_id: &str, now: &str)
        ensures
            final(self)@ == old(self)@.touch_session(session_id@, now@),
    {
        let matching = |r: &SessionRow| -> (b: bool)
            ensures
                b == with_session_id(session_id@)(r.deep_view()),
            { same(r.record.session_id.as_str(), session_id) };
        let change = |r: &SessionRow| -> (n: SessionRow)
            ensures
                n.deep_view() == set_updated_at(now@)(r.deep_view()),
            {
                let mut n = r.dup();
                n.record.updated_at = now.to_owned();
                n
            };
        self.sessions = update(
            &self.sessions,
            &matching,
            &change,
            Ghost(with_session_id(session_id@)),
            Ghost(set_updated_at(now@)),
        );
    }

    fn find_session_by_name_filtered(&self, persona: &str, name: &str, local_only: bool) -> (found:
        Option<SessionRecord>)
        ensures
            found.deep_view() == self@.find_session_by_name(persona@, name@, local_only),
    {
        let named = |r: &SessionRow| -> (b: bool)
            ensures
                b == self@.listed_as(persona@, name@, local_only)(r.deep_view()),
            {
                self.is_listed(r, persona, local_only) && same_but_case(
                    r.record.name.as_str(),
                    name,
                )
            };
        let rows = select(
            &self.sessions,
            &named,
            Ghost(self@.listed_as(persona@, name@, local_only)),
        );
        let preferred = |a: &SessionRow, b: &SessionRow| -> (less: bool)
            ensures
                less == by_use()(a.deep_view(), b.deep_view()),
            {
                (!a.record.archived && b.record.archived) || (a.record.archived
                    == b.record.archived && before(
                    b.record.updated_at.as_str(),
                    a.record.updated_at.as_str(),
                ))
            };
        let rows = sorted(&rows, &preferred, Ghost(by_use()));
        match head_row(&rows) {
            Some(row) => Some(row.record),
            None => None,
        }
    }

    /// The user session of a persona under a name, whatever the case of its
    /// ASCII letters.
    pub fn find_session_by_name(&self, persona: &str, name: &str) -> (found: Option<SessionRecord>)
        ensures
            found.deep_view() == self@.find_session_by_name(persona@, name@, false),
    {
        self.find_session_by_name_filtered(persona, name, false)
    }

    /// The same among the sessions that no messaging platform owns.
    pub fn find_local_session_by_name(&self, persona: &str, name: &str) -> (found: Option<
        SessionRecord,
    >)
        ensures
            found.deep_view() == self@.find_session_by_name(persona@, name@, true),
    {
        self.find_session_by_name_filtered(persona, name, true)
    }
}

/// Turns in the order of their `seq`.
pub(crate) fn sort_by_seq(turns: &Vec<TurnRow>) -> (out: Vec<TurnRow>)
    ensures
        out.deep_view() == order_by(turns.deep_view(), by_seq()),
{
    let earlier = |a: &TurnRow, b: &TurnRow| -> (less: bool)
        ensures
            less == by_seq()(a.deep_view(), b.deep_view()),
        { a.seq < b.seq };
    sorted(turns, &earlier, Ghost(by_seq()))
}

} // verus!
