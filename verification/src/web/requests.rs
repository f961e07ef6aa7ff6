//! What a request leads to, from what it asks for to what is begun, told or
//! refused.

use crate::json::{encode_strings, json_object, json_strings, json_text, Fields};
use crate::language::Language;
use crate::state::db::DbModel;
use crate::state::sessions::USER_SESSION_KIND;
use crate::state::store::{SharedModel, SharedState, StateStore, StoreModel};
use crate::state::turns::running_in;
use crate::state::types::{QueuedPrompt, QueuedPromptModel, RunningTurnQueueTargetModel};
use crate::table::{any, map_rows};
use crate::text::{is_blank, join, joined, same_some, trimmed};
use crate::web::actor::{AdminFailure, AdminFailureModel};
use crate::web::auth::{mutation_check, require_mutation, AuthModel, RequestHeaders, WebAuth};
use crate::web::error::{checked, ApiError, ApiErrorModel, StatusCode};
use crate::web::events::EventHub;
use crate::web::handlers::{
    enqueue_running_prompt, fit_id, is_fit_id, queue_check, remove_queue_prompt, QueuePlace,
    QueuePlaceModel,
};
use crate::web::manager::{claim_run, release_admin, ManagerModel, ManagerState};
use crate::web::media::verify_persona_asset_hash;
use crate::web::models::{SafeQueuedPrompt, SafeQueuedPromptModel};
use crate::web::sessions::{
    meant, mode_of, no_such_session, page_session, require_local_web_session, resolve_turn_session,
    turn_mode_for_session, SessionMode, SessionRefModel, ASK_SESSION_KIND,
};
use crate::web::types::{content_check, parse_mode, shown_prompt, validate_content, AgentMode};
use vstd::prelude::*;

verus! {

/// A message that is to be answered.
pub struct TurnRequest {
    pub content: String,
    pub mode: AgentMode,
}

/// The model of [`TurnRequest`].
#[verifier::ext_equal]
pub struct TurnRequestModel {
    pub content: Seq<char>,
    pub mode: AgentMode,
}

impl DeepView for TurnRequest {
    type V = TurnRequestModel;

    open spec fn deep_view(&self) -> TurnRequestModel {
        TurnRequestModel { content: self.content@, mode: self.mode }
    }
}

pub open spec fn mode_check(mode: Seq<char>) -> Result<AgentMode, ApiErrorModel> {
    if mode == AgentMode::Normal.word() {
        Ok(AgentMode::Normal)
    } else if mode == AgentMode::Plan.word() {
        Ok(AgentMode::Plan)
    } else if mode == AgentMode::Chat.word() {
        Ok(AgentMode::Chat)
    } else {
        Err(ApiErrorModel::bad("mode must be normal, plan, or chat"@))
    }
}

/// What a message and its mode come to, whoever sent them.
pub open spec fn message_check(content: Seq<char>, mode: Seq<char>) -> Result<
    TurnRequestModel,
    ApiErrorModel,
> {
    match content_check(content) {
        Err(error) => Err(error),
        Ok(content) => match mode_check(mode) {
            Err(error) => Err(error),
            Ok(mode) => Ok(TurnRequestModel { content, mode }),
        },
    }
}

fn check_message(content: &str, mode: &str) -> (result: Result<TurnRequest, ApiError>)
    ensures
        checked(result, message_check(content@, mode@)),
{
    proof {
        reveal_strlit("normal");
        reveal_strlit("plan");
        reveal_strlit("chat");
        assert("plan"@[0] != "chat"@[0]);
        assert("normal"@.len() == 6 && "plan"@.len() == 4 && "chat"@.len() == 4);
    }
    let content = match validate_content(content) {
        Ok(content) => content,
        Err(error) => return Err(error),
    };
    match parse_mode(mode) {
        Ok(mode) => Ok(TurnRequest { content, mode }),
        Err(error) => Err(error),
    }
}

/// What a page may ask for: whether it may ask at all comes first, then the
/// message, then the mode.
pub open spec fn turn_check(
    auth: AuthModel,
    cookies: Seq<Option<Seq<char>>>,
    origins: Seq<Option<Seq<char>>>,
    host: Option<Seq<char>>,
    content: Seq<char>,
    mode: Seq<char>,
) -> Result<TurnRequestModel, ApiErrorModel> {
    match mutation_check(auth, cookies, origins, host) {
        Err(error) => Err(error),
        Ok(_) => message_check(content, mode),
    }
}

/// Looks at a message that a page sent to be answered.
pub fn check_turn(headers: &RequestHeaders, auth: &WebAuth, content: &str, mode: &str) -> (result:
    Result<TurnRequest, ApiError>)
    ensures
        checked(
            result,
            turn_check(
                auth@,
                headers.cookies.deep_view(),
                headers.origins.deep_view(),
                headers.host.deep_view(),
                content@,
                mode@,
            ),
        ),
{
    match require_mutation(headers, auth) {
        Ok(()) => check_message(content, mode),
        Err(error) => Err(error),
    }
}

/// How a message is taken: a run of its own begins, or it waits for the turn that
/// is running.
pub enum Admission {
    Run,
    Queue(QueuePlace),
}

/// The model of [`Admission`].
#[verifier::ext_equal]
pub enum AdmissionModel {
    Run,
    Queue(QueuePlaceModel),
}

impl DeepView for Admission {
    type V = AdmissionModel;

    open spec fn deep_view(&self) -> AdmissionModel {
        match self {
            Admission::Run => AdmissionModel::Run,
            Admission::Queue(place) => AdmissionModel::Queue(place.deep_view()),
        }
    }
}

/// Where a message for the running turn of a session waits.
pub open spec fn target_of(db: DbModel, session_id: Seq<char>) -> Option<
    RunningTurnQueueTargetModel,
> {
    match db.running_turn_queue_target(session_id) {
        Some((turn_id, queue_session_id, owner_pid)) => Some(
            RunningTurnQueueTargetModel { turn_id, queue_session_id, owner_pid },
        ),
        None => None,
    }
}

pub open spec fn admission(
    db: DbModel,
    session_id: Seq<char>,
    manager: ManagerModel,
) -> Result<AdmissionModel, ApiErrorModel> {
    if any(db.turns, running_in(session_id)) {
        match queue_check(manager, target_of(db, session_id)) {
            Ok(place) => Ok(AdmissionModel::Queue(place)),
            Err(error) => Err(error),
        }
    } else if manager.free() {
        Ok(AdmissionModel::Run)
    } else {
        Err(crate::web::manager::busy())
    }
}

/// Takes a message, once the turns of processes that are gone were put in order.
/// A run that begins is the active one from here on.
pub fn create_turn(
    store: &StateStore,
    shared: &SharedState,
    manager: &mut ManagerState,
    run_id: &str,
) -> (result: Result<Admission, ApiError>)
    ensures
        checked(result, admission(shared@.db, shared@.session(store@), old(manager)@)),
        final(manager)@ == if admission(shared@.db, shared@.session(store@), old(manager)@) == Ok::<
            AdmissionModel,
            ApiErrorModel,
        >(AdmissionModel::Run) {
            old(manager)@.started(run_id@)
        } else {
            old(manager)@
        },
{
    if store.has_running_turns(shared) {
        let target = store.running_turn_queue_target(shared);
        match enqueue_running_prompt(manager, target) {
            Ok(place) => Ok(Admission::Queue(place)),
            Err(error) => Err(error),
        }
    } else {
        match claim_run(manager, run_id) {
            Ok(()) => Ok(Admission::Run),
            Err(error) => Err(error),
        }
    }
}

/// A message from a terminal that is to be answered in a session.
pub struct TerminalTurn {
    pub content: String,
    pub session_id: String,
    pub mode: SessionMode,
}

/// Why a terminal is refused.
pub enum TerminalRefusal {
    /// What the user is told.
    Message(String),
    /// The configuration or the conversation is being changed.
    Busy,
}

/// The session that a message is for: the one that is named, or the current one.
pub open spec fn wanted_session(
    db: DbModel,
    current: Seq<char>,
    wanted: Option<Seq<char>>,
    persona: Seq<char>,
) -> Option<Seq<char>> {
    match wanted {
        None => Some(current),
        Some(id) => match meant(
            db,
            current,
            SessionRefModel::Id(id),
            persona,
            seq![USER_SESSION_KIND@, ASK_SESSION_KIND@],
        ) {
            Some(record) => Some(record.session_id),
            None => None,
        },
    }
}

/// Takes a message from a terminal. Turns run beside each other: only a change
/// of the configuration or the conversation keeps one out.
pub fn handle_ipc_turn(
    content: &str,
    mode: &str,
    store: &StateStore,
    shared: &SharedState,
    session_id: Option<String>,
    persona: &str,
    manager: &ManagerState,
    language: Language,
) -> (result: Result<TerminalTurn, TerminalRefusal>)
    ensures
        match message_check(content@, mode@) {
            Err(error) => result matches Err(TerminalRefusal::Message(message)) && message@
                == error.message,
            Ok(request) => match wanted_session(
                shared@.db,
                shared@.session(store@),
                session_id.deep_view(),
                persona@,
            ) {
                None => result matches Err(TerminalRefusal::Message(message)) && message@
                    == no_such_session(language),
                Some(session) => if manager@.admin_busy {
                    result matches Err(TerminalRefusal::Busy)
                } else {
                    &&& result matches Ok(turn)
                    &&& turn.content@ == request.content
                    &&& turn.session_id@ == session
                    &&& turn.mode == match shared@.db.session_record(session) {
                        Some(record) => mode_of(record.persona),
                        None => SessionMode::Normal,
                    }
                },
            },
        },
{
    let request = match check_message(content, mode) {
        Ok(request) => request,
        Err(error) => return Err(TerminalRefusal::Message(error.message)),
    };
    let session_id = match resolve_turn_session(store, shared, session_id, persona, language) {
        Ok(session_id) => session_id,
        Err(message) => return Err(TerminalRefusal::Message(message)),
    };
    if manager.admin_busy {
        return Err(TerminalRefusal::Busy);
    }
    let mode = turn_mode_for_session(store, shared, session_id.as_str());
    Ok(TerminalTurn { content: request.content, session_id, mode })
}

pub open spec fn shown_fn() -> spec_fn(QueuedPromptModel) -> SafeQueuedPromptModel {
    |p: QueuedPromptModel| shown_prompt(p)
}

/// The messages that wait, as a page sees them: those for the turn that another
/// process runs, where this one runs none, and else its own.
pub open spec fn waiting(
    shared: SharedModel,
    store: StoreModel,
    manager: ManagerModel,
) -> Seq<QueuedPromptModel> {
    match target_of(shared.db, shared.session(store)) {
        Some(target) if manager.active_run_id is None => match target.queue_session_id {
            Some(queue) => shared.db.queued_prompts_of(shared.session(store), queue),
            None => Seq::empty(),
        },
        _ => shared.db.queued_prompts_of(shared.session(store), store.queue_session_id),
    }
}

/// The messages that wait, as a page sees them.
pub fn waiting_prompts(store: &StateStore, shared: &SharedState, manager: &ManagerState) -> (shown:
    Vec<SafeQueuedPrompt>)
    ensures
        shown.deep_view() == waiting(shared@, store@, manager@).map_values(shown_fn()),
{
    let target = store.running_turn_queue_target(shared);
    let prompts: Vec<QueuedPrompt> = match &target {
        Some(target) if manager.active_run_id.is_none() => store.load_queued_prompts_for_target(
            shared,
            target,
        ),
        _ => store.load_queued_prompts(shared),
    };
    let show = |p: &QueuedPrompt| -> (s: SafeQueuedPrompt)
        ensures
            s.deep_view() == shown_fn()(p.deep_view()),
        { SafeQueuedPrompt::from_prompt(p) };
    map_rows(&prompts, show, Ghost(shown_fn()))
}

/// What the store is like once a message was withdrawn, and whether it was there.
pub open spec fn withdrawn(
    shared: SharedModel,
    store: StoreModel,
    manager: ManagerModel,
    prompt_id: Seq<char>,
) -> (DbModel, bool) {
    if !fit_id(prompt_id) {
        (shared.db, false)
    } else {
        match target_of(shared.db, shared.session(store)) {
            Some(target) if manager.active_run_id is None => match target.queue_session_id {
                Some(queue) => shared.db.remove_queued_prompt(shared.session(store), prompt_id, queue),
                None => (shared.db, false),
            },
            _ => shared.db.remove_queued_prompt(shared.session(store), prompt_id, store.queue_session_id),
        }
    }
}

/// The turn of another process that a withdrawn message waited for.
pub open spec fn other_turn(
    shared: SharedModel,
    store: StoreModel,
    manager: ManagerModel,
) -> Option<Seq<char>> {
    match target_of(shared.db, shared.session(store)) {
        Some(target) if manager.active_run_id is None => Some(target.turn_id),
        _ => None,
    }
}

/// Withdraws a message that waits, and tells of it.
pub fn withdraw_prompt(
    store: &StateStore,
    shared: &mut SharedState,
    manager: &ManagerState,
    events: &mut EventHub,
    prompt_id: &str,
) -> (result: Result<(), ApiError>)
    requires
        old(events)@.well_formed(),
    ensures
        final(events)@.well_formed(),
        final(shared)@.db == withdrawn(old(shared)@, store@, manager@, prompt_id@).0,
        final(shared)@.access == old(shared)@.access,
        final(shared)@.entered == old(shared)@.entered,
        checked(
            result,
            if withdrawn(old(shared)@, store@, manager@, prompt_id@).1 {
                Ok(())
            } else {
                Err(ApiErrorModel::new(StatusCode::NotFound, "queued prompt not found"@))
            },
        ),
        final(events)@ == if withdrawn(old(shared)@, store@, manager@, prompt_id@).1 {
            old(events)@.published(
                "queue.removed"@,
                json_object(
                    seq![
                        ("prompt_id"@, json_text(prompt_id@)),
                        ("run_id"@, crate::json::maybe_json(manager@.active_run_id)),
                        (
                            "turn_id"@,
                            crate::json::maybe_json(
                                other_turn(old(shared)@, store@, manager@),
                            ),
                        ),
                    ],
                ),
            )
        } else {
            old(events)@
        },
{
    if !is_fit_id(prompt_id) {
        return Err(ApiError::new(StatusCode::NotFound, "queued prompt not found"));
    }
    let target = if manager.active_run_id.is_none() {
        store.running_turn_queue_target(shared)
    } else {
        None
    };
    match target {
        Some(target) => {
            let removed = store.remove_queued_prompt_for_target(shared, &target, prompt_id);
            let turn_id = Some(target.turn_id);
            remove_queue_prompt(events, prompt_id, &manager.active_run_id, &turn_id, removed)
        },
        None => {
            let removed = store.remove_queued_prompt(shared, prompt_id);
            let turn_id: Option<String> = None;
            remove_queue_prompt(events, prompt_id, &manager.active_run_id, &turn_id, removed)
        },
    }
}

pub open spec fn strings_fn() -> spec_fn(Seq<Seq<char>>) -> Seq<char> {
    |items: Seq<Seq<char>>| json_strings(items)
}

/// The JSON text of answers, each a list of strings.
pub open spec fn answers_json(answers: Seq<Seq<Seq<char>>>) -> Seq<char> {
    "["@ + joined(answers.map_values(strings_fn()), ","@) + "]"@
}

fn encode_answers(answers: &Vec<Vec<String>>) -> (json: String)
    ensures
        json@ == answers_json(answers.deep_view()),
{
    let mut parts: Vec<String> = Vec::new();
    let mut i: usize = 0;
    while i < answers.len()
        invariant
            i <= answers.len(),
            parts.len() == i,
            forall|j: int|
                0 <= j < i ==> #[trigger] parts[j]@ == strings_fn()(answers[j].deep_view()),
        decreases answers.len() - i,
    {
        let part = encode_strings(&answers[i]);
        parts.push(part);
        i += 1;
    }
    assert(parts.deep_view() =~= answers.deep_view().map_values(strings_fn()));
    "[".to_owned().concat(join(&parts, ",").as_str()).concat("]")
}

/// Tells how a question was answered, once the run that asked has the answer.
pub fn publish_answer(
    events: &mut EventHub,
    run_id: &str,
    question_id: &str,
    answers: &Vec<Vec<String>>,
)
    requires
        old(events)@.well_formed(),
    ensures
        final(events)@.well_formed(),
        final(events)@ == old(events)@.published(
            "question.answered"@,
            json_object(
                seq![
                    ("answers"@, answers_json(answers.deep_view())),
                    ("question_id"@, json_text(question_id@)),
                    ("run_id"@, json_text(run_id@)),
                ],
            ),
        ),
{
    let json = encode_answers(answers);
    let fields = Fields::new().raw("answers", json.as_str()).text("question_id", question_id).text(
        "run_id",
        run_id,
    );
    assert(fields@ =~= seq![
        ("answers"@, answers_json(answers.deep_view())),
        ("question_id"@, json_text(question_id@)),
        ("run_id"@, json_text(run_id@)),
    ]);
    let data = fields.object();
    let _ = events.publish("question.answered", data.as_str());
}

/// A change of a session.
pub enum SessionEdit {
    Rename(String),
    /// The directory that the session is bound to from now on, if any.
    Workspace(Option<String>),
}

/// The model of [`SessionEdit`].
#[verifier::ext_equal]
pub enum SessionEditModel {
    Rename(Seq<char>),
    Workspace(Option<Seq<char>>),
}

impl DeepView for SessionEdit {
    type V = SessionEditModel;

    open spec fn deep_view(&self) -> SessionEditModel {
        match self {
            SessionEdit::Rename(name) => SessionEditModel::Rename(name@),
            SessionEdit::Workspace(path) => SessionEditModel::Workspace(path.deep_view()),
        }
    }
}

/// The changes that a page asked for, in the order in which they are made. A
/// blank directory stands for none.
pub open spec fn session_edits(name: Option<Seq<char>>, workspace: Option<Seq<char>>) -> Seq<
    SessionEditModel,
> {
    (match name {
        Some(name) => seq![SessionEditModel::Rename(name)],
        None => Seq::empty(),
    }) + (match workspace {
        Some(path) => seq![
            SessionEditModel::Workspace(
                if trimmed(path).len() == 0 {
                    None
                } else {
                    Some(path)
                },
            ),
        ],
        None => Seq::empty(),
    })
}

/// The changes of a session that a page asked for, where it may ask for them.
pub fn update_session(
    headers: &RequestHeaders,
    auth: &WebAuth,
    store: &StateStore,
    shared: &SharedState,
    session_id: &str,
    persona: &str,
    name: Option<String>,
    workspace: Option<String>,
) -> (result: Result<Vec<SessionEdit>, ApiError>)
    ensures
        checked(
            result,
            match mutation_check(
                auth@,
                headers.cookies.deep_view(),
                headers.origins.deep_view(),
                headers.host.deep_view(),
            ) {
                Err(error) => Err(error),
                Ok(_) => match page_session(shared@.db, session_id@, persona@) {
                    Err(error) => Err(error),
                    Ok(_) => Ok(session_edits(name.deep_view(), workspace.deep_view())),
                },
            },
        ),
{
    match require_mutation(headers, auth) {
        Ok(()) => {},
        Err(error) => return Err(error),
    }
    match require_local_web_session(store, shared, session_id, persona) {
        Ok(_) => {},
        Err(error) => return Err(error),
    }
    let ghost wanted = session_edits(name.deep_view(), workspace.deep_view());
    let mut edits: Vec<SessionEdit> = Vec::new();
    if let Some(name) = name {
        edits.push(SessionEdit::Rename(name));
    }
    if let Some(path) = workspace {
        if is_blank(path.as_str()) {
            edits.push(SessionEdit::Workspace(None));
        } else {
            edits.push(SessionEdit::Workspace(Some(path)));
        }
    }
    assert(edits.deep_view() =~= wanted);
    Ok(edits)
}

/// How the worker answered that was asked to change to another session.
pub enum SwitchReply {
    /// It could not be asked.
    Unavailable,
    /// It stopped before it answered.
    Stopped,
    Answered(Result<(), AdminFailure>),
}

/// What the user is told of a change to another session; nothing where it
/// happened.
pub open spec fn switch_message(reply: SwitchReply) -> Option<Seq<char>> {
    match reply {
        SwitchReply::Unavailable => Some("GQY core worker is unavailable"@),
        SwitchReply::Stopped => Some("GQY core stopped while switching sessions"@),
        SwitchReply::Answered(Ok(_)) => None,
        SwitchReply::Answered(Err(failure)) => Some(
            match failure@ {
                AdminFailureModel::Invalid(message) => message,
                AdminFailureModel::Internal(message) => message,
            },
        ),
    }
}

/// What the user is told of a change to another session. The assistant was
/// reserved for it, and is so no more where the worker is gone; unless it was
/// reserved for something else before.
pub fn switch_session_via_actor(
    reply: SwitchReply,
    reserved_before: bool,
    manager: &mut ManagerState,
) -> (result: Result<(), String>)
    ensures
        match switch_message(reply) {
            None => result is Ok,
            Some(message) => result matches Err(told) && told@ == message,
        },
        final(manager)@ == if reserved_before || reply is Answered {
            old(manager)@
        } else {
            old(manager)@.released()
        },
{
    match reply {
        SwitchReply::Unavailable => {
            if !reserved_before {
                release_admin(manager);
            }
            Err("GQY core worker is unavailable".to_owned())
        },
        SwitchReply::Stopped => {
            if !reserved_before {
                release_admin(manager);
            }
            Err("GQY core stopped while switching sessions".to_owned())
        },
        SwitchReply::Answered(Ok(())) => Ok(()),
        SwitchReply::Answered(Err(AdminFailure::Invalid(message))) => Err(message),
        SwitchReply::Answered(Err(AdminFailure::Internal(message))) => Err(message),
    }
}

/// Why the pages may not be served at an address, if they may not: others than
/// this machine reach it, and no password is asked for.
pub fn address_fault(host: &str, is_loopback: bool, has_password: bool) -> (fault: Option<String>)
    ensures
        fault.deep_view() == if is_loopback || has_password {
            None
        } else {
            Some(
                "绑定非回环地址（"@ + host@ + "）必须设置访问密码：gqy web --host "@ + host@
                    + " -p <password>"@,
            )
        },
{
    if is_loopback || has_password {
        None
    } else {
        Some(
            "绑定非回环地址（".to_owned().concat(host).concat(
                "）必须设置访问密码：gqy web --host ",
            ).concat(host).concat(" -p <password>"),
        )
    }
}

/// What lies where a picture of a persona is to be kept.
pub enum AssetFound {
    Nothing,
    File(Vec<u8>),
    /// No plain file.
    Other,
}

/// How a picture of a persona is kept.
#[derive(Debug, Clone, Copy, PartialEq, Eq, Structural)]
pub enum AssetAction {
    /// It is there.
    Keep,
    /// It is written, unless something comes to lie there meanwhile.
    Link,
    /// It is written in place of a file that holds something else.
    Replace,
}

/// How a picture of a persona is kept.
pub fn store_persona_asset(found: &AssetFound, expected_hash: &str, limit: usize) -> (result: Result<
    AssetAction,
    ApiError,
>)
    ensures
        match found {
            AssetFound::Nothing => result matches Ok(AssetAction::Link),
            AssetFound::File(bytes) => if bytes@.len() > limit || crate::digest::hex_of(
                crate::digest::sha256(bytes@),
            ) != expected_hash@ {
                result matches Ok(AssetAction::Replace)
            } else {
                result matches Ok(AssetAction::Keep)
            },
            AssetFound::Other => result matches Err(error) && error@ == ApiErrorModel::new(
                StatusCode::Conflict,
                "persona asset destination is unsafe"@,
            ),
        },
{
    match found {
        AssetFound::Nothing => Ok(AssetAction::Link),
        AssetFound::File(bytes) => match verify_persona_asset_hash(bytes, expected_hash, limit) {
            Ok(()) => Ok(AssetAction::Keep),
            Err(_) => Ok(AssetAction::Replace),
        },
        AssetFound::Other => Err(
            ApiError::new(StatusCode::Conflict, "persona asset destination is unsafe"),
        ),
    }
}

/// What a build is known by to those who have its files.
pub fn build_etag(build: &str) -> (tag: String)
    ensures
        tag@ == "\""@ + build@ + "\""@,
{
    "\"".to_owned().concat(build).concat("\"")
}

/// Whether who asks for a file of the page has it already.
pub fn embedded_asset(known: &Option<String>, build: &str) -> (status: StatusCode)
    ensures
        status == if known.deep_view() == Some("\""@ + build@ + "\""@) {
            StatusCode::NotModified
        } else {
            StatusCode::Okay
        },
{
    let tag = build_etag(build);
    if same_some(known, tag.as_str()) {
        StatusCode::NotModified
    } else {
        StatusCode::Okay
    }
}

} // verus!
