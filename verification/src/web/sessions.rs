//! The sessions that a page and a terminal may work with.

use crate::json::{json_bool, json_object, json_text, maybe_json, Fields};
use crate::language::Language;
use crate::state::sessions::{terminal_session, terminal_session_name, USER_SESSION_KIND};
use crate::state::store::{new_session_id, SharedState, StateStore};
use crate::state::error::{StateError, StateErrorModel};
use crate::state::types::{
    ImageAsset, ImageAssetModel, SessionOverview, SessionOverviewModel, SessionRecord,
    SessionRecordModel, Turn, TurnModel,
};
use crate::state::db::DbModel;
use crate::table::{append_all, first, first_row, order_by, select, sorted};
use crate::text::{before, decimal, one_of, precedes, same};
use crate::web::error::{checked, ApiError, ApiErrorModel, StatusCode};
use crate::web::events::{EventHub, HubModel};
use crate::web::models::{SafeTurn, SafeTurnModel};
use crate::web::types::shown_turn;
use vstd::prelude::*;

verus! {

/// The persona of those who work on the assistant itself.
pub const DEV_PERSONA: &'static str = "dev";

/// The kind of a session that is asked once.
pub const ASK_SESSION_KIND: &'static str = "ask";

pub open spec fn page_session(db: DbModel, session_id: Seq<char>, persona: Seq<char>) -> Result<
    SessionRecordModel,
    ApiErrorModel,
> {
    match db.session_record(session_id) {
        Some(record) if !db.is_platform_session(session_id) && record.kind == USER_SESSION_KIND@
            && (record.persona == persona || record.persona == DEV_PERSONA@) => Ok(record),
        _ => Err(ApiErrorModel::new(StatusCode::NotFound, "session not found"@)),
    }
}

/// A session that a page may work with: one of a user, of the active persona or
/// the one for development, that no platform has.
pub fn require_local_web_session(
    store: &StateStore,
    shared: &SharedState,
    session_id: &str,
    persona: &str,
) -> (result: Result<SessionRecord, ApiError>)
    ensures
        checked(result, page_session(shared@.db, session_id@, persona@)),
{
    if let Some(record) = store.session_record(shared, session_id) {
        if !store.is_platform_session(shared, session_id) && same(
            record.kind.as_str(),
            USER_SESSION_KIND,
        ) && (same(record.persona.as_str(), persona) || same(
            record.persona.as_str(),
            DEV_PERSONA,
        )) {
            return Ok(record);
        }
    }
    Err(ApiError::new(StatusCode::NotFound, "session not found"))
}

/// How a terminal names a session.
pub enum SessionRef {
    Current,
    Id(String),
    Name(String),
}

/// The model of [`SessionRef`].
#[verifier::ext_equal]
pub enum SessionRefModel {
    Current,
    Id(Seq<char>),
    Name(Seq<char>),
}

impl View for SessionRef {
    type V = SessionRefModel;

    open spec fn view(&self) -> SessionRefModel {
        match self {
            SessionRef::Current => SessionRefModel::Current,
            SessionRef::Id(id) => SessionRefModel::Id(id@),
            SessionRef::Name(name) => SessionRefModel::Name(name@),
        }
    }
}

/// The session that is meant, of one of `kinds`. An id opens the sessions of
/// every persona.
pub open spec fn meant(
    db: DbModel,
    current: Seq<char>,
    target: SessionRefModel,
    persona: Seq<char>,
    kinds: Seq<Seq<char>>,
) -> Option<SessionRecordModel> {
    let found = match target {
        SessionRefModel::Current => db.session_record(current),
        SessionRefModel::Id(id) => db.session_record(id),
        SessionRefModel::Name(name) => db.find_session_by_name(persona, name, true),
    };
    match found {
        Some(record) if (record.persona == persona || record.persona == DEV_PERSONA@
            || target is Id) && kinds.contains(record.kind) && !db.is_platform_session(
            record.session_id,
        ) => Some(record),
        _ => None,
    }
}

/// What is said where no session is meant.
pub open spec fn no_such_session(language: Language) -> Seq<char> {
    language.said("session not found"@, "找不到该会话"@)
}

/// The session that is meant, of one of `kinds`.
pub fn resolve_local_session_ref_with_kinds(
    store: &StateStore,
    shared: &SharedState,
    target: &SessionRef,
    persona: &str,
    kinds: &Vec<String>,
    language: Language,
) -> (result: Result<SessionRecord, String>)
    ensures
        match meant(shared@.db, shared@.session(store@), target@, persona@, kinds.deep_view()) {
            Some(record) => result matches Ok(got) && got.deep_view() == record,
            None => result matches Err(message) && message@ == no_such_session(language),
        },
{
    let current = store.session_id(shared);
    let found = match target {
        SessionRef::Current => store.session_record(shared, current.as_str()),
        SessionRef::Id(id) => store.session_record(shared, id.as_str()),
        SessionRef::Name(name) => store.find_local_session_by_name(
            shared,
            persona,
            name.as_str(),
        ),
    };
    if let Some(record) = found {
        let by_id = match target {
            SessionRef::Id(_) => true,
            _ => false,
        };
        if (same(record.persona.as_str(), persona) || same(record.persona.as_str(), DEV_PERSONA)
            || by_id) && one_of(kinds, record.kind.as_str()) && !store.is_platform_session(
            shared,
            record.session_id.as_str(),
        ) {
            return Ok(record);
        }
    }
    Err(language.text("session not found", "找不到该会话").to_owned())
}

/// The session of a user that is meant.
pub fn resolve_local_session_ref(
    store: &StateStore,
    shared: &SharedState,
    target: &SessionRef,
    persona: &str,
    language: Language,
) -> (result: Result<SessionRecord, String>)
    ensures
        match meant(
            shared@.db,
            shared@.session(store@),
            target@,
            persona@,
            seq![USER_SESSION_KIND@],
        ) {
            Some(record) => result matches Ok(got) && got.deep_view() == record,
            None => result matches Err(message) && message@ == no_such_session(language),
        },
{
    let mut kinds: Vec<String> = Vec::new();
    kinds.push(USER_SESSION_KIND.to_owned());
    assert(kinds.deep_view() =~= seq![USER_SESSION_KIND@]);
    resolve_local_session_ref_with_kinds(store, shared, target, persona, &kinds, language)
}

/// The session that a turn goes to: the current one, or one that is meant by its
/// id, which may be one that is asked once.
pub fn resolve_turn_session(
    store: &StateStore,
    shared: &SharedState,
    session_id: Option<String>,
    persona: &str,
    language: Language,
) -> (result: Result<String, String>)
    ensures
        match session_id {
            None => result matches Ok(id) && id@ == shared@.session(store@),
            Some(wanted) => match meant(
                shared@.db,
                shared@.session(store@),
                SessionRefModel::Id(wanted@),
                persona@,
                seq![USER_SESSION_KIND@, ASK_SESSION_KIND@],
            ) {
                Some(record) => result matches Ok(id) && id@ == record.session_id,
                None => result matches Err(message) && message@ == no_such_session(language),
            },
        },
{
    match session_id {
        None => Ok(store.session_id(shared)),
        Some(wanted) => {
            let mut kinds: Vec<String> = Vec::new();
            kinds.push(USER_SESSION_KIND.to_owned());
            kinds.push(ASK_SESSION_KIND.to_owned());
            assert(kinds.deep_view() =~= seq![USER_SESSION_KIND@, ASK_SESSION_KIND@]);
            let target = SessionRef::Id(wanted);
            match resolve_local_session_ref_with_kinds(
                store,
                shared,
                &target,
                persona,
                &kinds,
                language,
            ) {
                Ok(record) => Ok(record.session_id),
                Err(message) => Err(message),
            }
        },
    }
}

/// What a session is for, which is settled when it is made.
#[derive(Debug, Clone, Copy, PartialEq, Eq, Structural)]
pub enum SessionMode {
    Normal,
    Dev,
}

pub open spec fn mode_of(persona: Seq<char>) -> SessionMode {
    if persona == DEV_PERSONA@ {
        SessionMode::Dev
    } else {
        SessionMode::Normal
    }
}

/// What a turn of a session is for, whatever was asked.
pub fn turn_mode_for_session(store: &StateStore, shared: &SharedState, session_id: &str) -> (mode:
    SessionMode)
    ensures
        mode == match shared@.db.session_record(session_id@) {
            Some(record) => mode_of(record.persona),
            None => SessionMode::Normal,
        },
{
    match store.session_record(shared, session_id) {
        Some(record) => {
            if same(record.persona.as_str(), DEV_PERSONA) {
                SessionMode::Dev
            } else {
                SessionMode::Normal
            }
        },
        None => SessionMode::Normal,
    }
}

pub open spec fn later() -> spec_fn(SessionOverviewModel, SessionOverviewModel) -> bool {
    |a: SessionOverviewModel, b: SessionOverviewModel|
        precedes(b.record.updated_at, a.record.updated_at)
}

/// The sessions that a page lists: those of the persona and those for
/// development, the last one used first.
pub open spec fn listed(db: DbModel, persona: Seq<char>) -> Seq<SessionOverviewModel> {
    let own = db.list_sessions(persona, true);
    order_by(
        if persona != DEV_PERSONA@ {
            own + db.list_sessions(DEV_PERSONA@, true)
        } else {
            own
        },
        later(),
    )
}

/// The sessions that a page lists: those of the persona and those for
/// development, the last one used first.
pub fn sessions_with_dev(store: &StateStore, shared: &SharedState, persona: &str) -> (list: Vec<
    SessionOverview,
>)
    ensures
        list.deep_view() == listed(shared@.db, persona@),
{
    let mut rows = store.list_local_sessions(shared, persona);
    if !same(persona, DEV_PERSONA) {
        append_all(&mut rows, &store.list_local_sessions(shared, DEV_PERSONA));
    }
    let order = |a: &SessionOverview, b: &SessionOverview| -> (less: bool)
        ensures
            less == later()(a.deep_view(), b.deep_view()),
        { before(b.record.updated_at.as_str(), a.record.updated_at.as_str()) };
    sorted(&rows, &order, Ghost(later()))
}

pub open spec fn other_than(session_id: Seq<char>) -> spec_fn(SessionOverviewModel) -> bool {
    |overview: SessionOverviewModel| overview.record.session_id != session_id
}

pub open spec fn created_json(record: SessionRecordModel) -> Seq<char> {
    json_object(
        seq![("name"@, json_text(record.name)), ("session_id"@, json_text(record.session_id))],
    )
}

/// The session to go on with when `exclude` goes: the one used last among the
/// others of the persona or, where there is none, a new one, of which the pages
/// are told.
pub fn fallback_session_id(
    store: &StateStore,
    shared: &mut SharedState,
    events: &mut EventHub,
    exclude: &str,
    persona: &str,
    language: Language,
) -> (result: Result<String, StateError>)
    requires
        old(events)@.well_formed(),
    ensures
        final(events)@.well_formed(),
        match first(old(shared)@.db.list_sessions(persona@, true), other_than(exclude@)) {
            Some(overview) => {
                &&& result matches Ok(id)
                &&& id@ == overview.record.session_id
                &&& final(shared)@ == old(shared)@
                &&& final(events)@ == old(events)@
            },
            None => exists|millis: u128, salt: u32, now: Seq<char>|
                fell_back(
                    result,
                    old(shared)@.db,
                    final(shared)@.db,
                    old(events)@,
                    final(events)@,
                    #[trigger] old(shared)@.db.create_session(
                        new_session_id(millis, salt),
                        persona@,
                        terminal_session(language),
                        "user"@,
                        None,
                        now,
                    ),
                ),
        },
{
    let other = |overview: &SessionOverview| -> (b: bool)
        ensures
            b == other_than(exclude@)(overview.deep_view()),
        { !same(overview.record.session_id.as_str(), exclude) };
    let sessions = store.list_local_sessions(shared, persona);
    if let Some(overview) = first_row(&sessions, &other, Ghost(other_than(exclude@))) {
        return Ok(overview.record.session_id);
    }
    let name = terminal_session_name(language);
    let created = store.create_session(shared, persona, name, "user", None);
    match created {
        Ok(record) => {
            let fields = Fields::new().text("name", record.name.as_str()).text(
                "session_id",
                record.session_id.as_str(),
            );
            assert(fields@ =~= seq![
                ("name"@, json_text(record.name@)),
                ("session_id"@, json_text(record.session_id@)),
            ]);
            let _ = events.publish("session.created", fields.object().as_str());
            Ok(record.session_id)
        },
        Err(error) => Err(error),
    }
}

/// What comes of an attempt to make a session to go on with.
pub open spec fn fell_back(
    result: Result<String, StateError>,
    before: DbModel,
    after: DbModel,
    events_before: HubModel,
    events_after: HubModel,
    expected: Result<(DbModel, SessionRecordModel), StateErrorModel>,
) -> bool {
    match expected {
        Ok((db, record)) => {
            &&& result matches Ok(id)
            &&& id@ == record.session_id
            &&& after == db
            &&& events_after == events_before.published("session.created"@, created_json(record))
        },
        Err(error) => {
            &&& result matches Err(got)
            &&& got@ == error
            &&& after == before
            &&& events_after == events_before
        },
    }
}

pub open spec fn mode_word(persona: Seq<char>) -> Seq<char> {
    if persona == DEV_PERSONA@ {
        "dev"@
    } else {
        "normal"@
    }
}

/// What a page is told of a session.
pub open spec fn record_fields(record: SessionRecordModel) -> Seq<(Seq<char>, Seq<char>)> {
    seq![
        ("created_at"@, json_text(record.created_at)),
        ("kind"@, json_text(record.kind)),
        ("mode"@, json_text(mode_word(record.persona))),
        ("name"@, json_text(record.name)),
        ("session_id"@, json_text(record.session_id)),
        ("updated_at"@, json_text(record.updated_at)),
        ("workspace"@, maybe_json(record.workspace)),
    ]
}

fn fields_of(record: &SessionRecord) -> (fields: Fields)
    ensures
        fields@ == record_fields(record.deep_view()),
{
    let mode = if same(record.persona.as_str(), DEV_PERSONA) {
        "dev"
    } else {
        "normal"
    };
    let fields = Fields::new().text("created_at", record.created_at.as_str()).text(
        "kind",
        record.kind.as_str(),
    ).text("mode", mode).text("name", record.name.as_str()).text(
        "session_id",
        record.session_id.as_str(),
    ).text("updated_at", record.updated_at.as_str()).maybe_text("workspace", &record.workspace);
    assert(fields@ =~= record_fields(record.deep_view()));
    fields
}

/// What a page is told of a session, as JSON.
pub fn session_record_json(record: &SessionRecord) -> (json: String)
    ensures
        json@ == json_object(record_fields(record.deep_view())),
{
    fields_of(record).object()
}

/// What a page is told of a session in a list.
pub open spec fn overview_fields(overview: SessionOverviewModel, current: Seq<char>) -> Seq<
    (Seq<char>, Seq<char>),
> {
    record_fields(overview.record).push(
        ("turn_count"@, decimal(overview.turn_count as nat)),
    ).push(("last_user_content"@, maybe_json(overview.last_user_content))).push(
        ("is_current"@, json_bool(overview.record.session_id == current)),
    )
}

/// What a page is told of a session in a list, as JSON.
pub fn session_overview_json(overview: &SessionOverview, current: &str) -> (json: String)
    ensures
        json@ == json_object(overview_fields(overview.deep_view(), current@)),
{
    fields_of(&overview.record).number("turn_count", overview.turn_count as u64).maybe_text(
        "last_user_content",
        &overview.last_user_content,
    ).truth("is_current", same(overview.record.session_id.as_str(), current)).object()
}

pub open spec fn of_turn(turn_id: Seq<char>) -> spec_fn(ImageAssetModel) -> bool {
    |asset: ImageAssetModel| asset.turn_id == turn_id
}

/// The turns among the first `n` that a page shows, each with its pictures.
pub open spec fn shown_turns(turns: Seq<TurnModel>, assets: Seq<ImageAssetModel>, n: nat) -> Seq<
    SafeTurnModel,
>
    decreases n,
{
    if n == 0 {
        Seq::empty()
    } else {
        let done = shown_turns(turns, assets, (n - 1) as nat);
        if turns[n - 1].is_summary {
            done
        } else {
            done.push(shown_turn(turns[n - 1], assets.filter(of_turn(turns[n - 1].turn_id))))
        }
    }
}

/// The turns that a page shows, each with its pictures: all but summaries.
pub fn session_turns(turns: &Vec<Turn>, assets: &Vec<ImageAsset>) -> (shown: Vec<SafeTurn>)
    ensures
        shown.deep_view() == shown_turns(
            turns.deep_view(),
            assets.deep_view(),
            turns.deep_view().len(),
        ),
{
    let mut shown: Vec<SafeTurn> = Vec::new();
    let mut i: usize = 0;
    let ghost all = turns.deep_view();
    assert(shown.deep_view() =~= Seq::<SafeTurnModel>::empty());
    while i < turns.len()
        invariant
            i <= turns.len(),
            all == turns.deep_view(),
            shown.deep_view() == shown_turns(all, assets.deep_view(), i as nat),
        decreases turns.len() - i,
    {
        let turn = &turns[i];
        assert(all[i as int] == turn.deep_view());
        if !turn.is_summary {
            let ghost done = shown.deep_view();
            let its = |asset: &ImageAsset| -> (b: bool)
                ensures
                    b == of_turn(turn.turn_id@)(asset.deep_view()),
                { same(asset.turn_id.as_str(), turn.turn_id.as_str()) };
            let own = select(assets, &its, Ghost(of_turn(turn.turn_id@)));
            let safe = SafeTurn::from_turn(turn, &own);
            shown.push(safe);
            assert(shown.deep_view() =~= done.push(safe.deep_view()));
        }
        i += 1;
    }
    shown
}

} // verus!
