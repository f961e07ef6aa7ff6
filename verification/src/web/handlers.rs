//! What requests of pages come to.

use crate::json::{decode_field, json_object, json_text, maybe_json, parsed_field, Fields};
use crate::state::types::{RunningTurnQueueTarget, RunningTurnQueueTargetModel, Turn, TurnModel};
use crate::text::{
    byte_len, chars_of, decimal, decimal_text, drop_end, drop_trailing, is_blank, same, same_some,
    trim, trimmed,
};
use crate::web::auth::{origin_is_allowed, same_origin, LoginFailure, RequestHeaders, WebAuth};
use crate::web::error::{checked, ApiError, ApiErrorModel, StatusCode};
use crate::web::events::{AnswerFailure, AnswerFailureModel, EventHub};
use crate::web::manager::{busy, ManagerModel, ManagerState};
use crate::web::media::{number_of, parse_number};
use crate::web::models::{SafeQueuedPrompt, SafeQueuedPromptModel};
use crate::web::types::PiCommandKind;
use crate::web::util::{base64_url, url_safe_text, AUTH_COOKIE};
use crate::words::{any_char, pieces, some_char, split_at_char, is_char};
use vstd::prelude::*;
use vstd::utf8::encode_utf8;

verus! {

/// How long a password may be, in characters.
pub const MAX_PASSWORD_CHARS: usize = 1024;

/// How a page is answered that logs in.
pub enum LoginReply {
    /// It may go on as it is.
    NotNeeded,
    /// It is known by a cookie from now on.
    Cookie(String),
    Refused(ApiError),
    /// It is refused, and may try again after so many seconds.
    Later(ApiError, u32),
}

/// The model of [`LoginReply`].
#[verifier::ext_equal]
pub enum LoginReplyModel {
    NotNeeded,
    Cookie(Seq<char>),
    Refused(ApiErrorModel),
    Later(ApiErrorModel, u32),
}

impl View for LoginReply {
    type V = LoginReplyModel;

    open spec fn view(&self) -> LoginReplyModel {
        match self {
            LoginReply::NotNeeded => LoginReplyModel::NotNeeded,
            LoginReply::Cookie(cookie) => LoginReplyModel::Cookie(cookie@),
            LoginReply::Refused(error) => LoginReplyModel::Refused(error@),
            LoginReply::Later(error, seconds) => LoginReplyModel::Later(error@, *seconds),
        }
    }
}

/// The answer to a page before its password is looked at, if there is one.
pub open spec fn answered_early(
    allowed: bool,
    required: bool,
    password_chars: nat,
) -> Option<LoginReplyModel> {
    if !allowed {
        Some(
            LoginReplyModel::Refused(
                ApiErrorModel::new(StatusCode::Forbidden, "request origin is not allowed"@),
            ),
        )
    } else if !required {
        Some(LoginReplyModel::NotNeeded)
    } else if password_chars > MAX_PASSWORD_CHARS {
        Some(LoginReplyModel::Refused(ApiErrorModel::bad("password is too long"@)))
    } else {
        None
    }
}

/// The answer to a page whose password was looked at.
pub open spec fn login_reply(outcome: Result<Seq<char>, LoginFailure>) -> LoginReplyModel {
    match outcome {
        Ok(session) => LoginReplyModel::Cookie(
            AUTH_COOKIE@ + "="@ + session + "; HttpOnly; SameSite=Strict; Path=/; Max-Age=86400"@,
        ),
        Err(LoginFailure::Invalid) => LoginReplyModel::Refused(
            ApiErrorModel::new(StatusCode::Unauthorized, "invalid password"@),
        ),
        Err(LoginFailure::RateLimited) => LoginReplyModel::Later(
            ApiErrorModel::new(
                StatusCode::TooManyRequests,
                "too many login attempts; try again shortly"@,
            ),
            60,
        ),
    }
}

pub open spec fn login_outcome(outcome: Result<String, LoginFailure>) -> Result<
    Seq<char>,
    LoginFailure,
> {
    match outcome {
        Ok(token) => Ok(token@),
        Err(failure) => Err(failure),
    }
}

/// The answer to a page whose password was looked at.
pub fn answer_login(outcome: Result<String, LoginFailure>) -> (reply: LoginReply)
    ensures
        reply@ == login_reply(login_outcome(outcome)),
{
    match outcome {
        Ok(session) => LoginReply::Cookie(
            AUTH_COOKIE.to_owned().concat("=").concat(session.as_str()).concat(
                "; HttpOnly; SameSite=Strict; Path=/; Max-Age=86400",
            ),
        ),
        Err(LoginFailure::Invalid) => LoginReply::Refused(
            ApiError::new(StatusCode::Unauthorized, "invalid password"),
        ),
        Err(LoginFailure::RateLimited) => LoginReply::Later(
            ApiError::new(
                StatusCode::TooManyRequests,
                "too many login attempts; try again shortly",
            ),
            60,
        ),
    }
}

/// Lets a page log in.
pub fn auth_login(
    headers: &RequestHeaders,
    auth: &mut WebAuth,
    peer: &str,
    password: &str,
    now: u64,
) -> (reply: LoginReply)
    requires
        old(auth)@.well_formed(),
    ensures
        final(auth)@.well_formed(),
        match answered_early(
            same_origin(headers.origins.deep_view(), headers.host.deep_view()),
            old(auth)@.digest is Some,
            password@.len(),
        ) {
            Some(early) => reply@ == early && final(auth)@ == old(auth)@,
            None => exists|drawn: Seq<u8>, outcome: Result<Seq<char>, LoginFailure>|
                drawn.len() == 32 && url_safe_text(base64_url(drawn)) && #[trigger] old(
                    auth,
                )@.login(
                    peer@,
                    password@,
                    now,
                    base64_url(drawn),
                    final(auth)@,
                    outcome,
                ) && reply@ == login_reply(outcome),
        },
{
    if !origin_is_allowed(headers) {
        return LoginReply::Refused(
            ApiError::new(StatusCode::Forbidden, "request origin is not allowed"),
        );
    }
    if !auth.required() {
        return LoginReply::NotNeeded;
    }
    if password.unicode_len() > MAX_PASSWORD_CHARS {
        return LoginReply::Refused(ApiError::new(StatusCode::BadRequest, "password is too long"));
    }
    let outcome = auth.login(peer, password, now);
    proof {
        let drawn = choose|drawn: Seq<u8>|
            drawn.len() == 32 && url_safe_text(base64_url(drawn)) && old(auth)@.login(
                peer@,
                password@,
                now,
                #[trigger] base64_url(drawn),
                auth@,
                login_outcome(outcome),
            );
        assert(old(auth)@.login(
            peer@,
            password@,
            now,
            base64_url(drawn),
            auth@,
            login_outcome(outcome),
        ));
    }
    answer_login(outcome)
}

pub open spec fn ends_line() -> spec_fn(char) -> bool {
    |c: char| c == '\r' || c == '\n'
}

/// The password that a file holds: all of it but the ends of lines behind it.
pub fn password_in_file(contents: &str) -> (password: String)
    ensures
        password@ == drop_trailing(contents@, ends_line()),
{
    let end = |c: char| -> (b: bool)
        ensures
            b == ends_line()(c),
        { c == '\r' || c == '\n' };
    drop_end(contents, &end, Ghost(ends_line()))
}

/// Whether a password may be used and, if not, why.
pub fn resolve_web_password(password: &Option<String>) -> (fault: Option<&'static str>)
    ensures
        fault.deep_view() == match password {
            Some(password) => if password@.len() == 0 {
                Some("WebUI password cannot be empty"@)
            } else if password@.len() > MAX_PASSWORD_CHARS {
                Some("WebUI password cannot exceed 1,024 characters"@)
            } else {
                None
            },
            None => None,
        },
{
    if let Some(password) = password {
        if password.as_str().is_empty() {
            return Some("WebUI password cannot be empty");
        }
        if password.as_str().unicode_len() > MAX_PASSWORD_CHARS {
            return Some("WebUI password cannot exceed 1,024 characters");
        }
    }
    None
}

pub open spec fn upper_hex(d: nat) -> char {
    if d < 10 {
        (48 + d) as char
    } else {
        (55 + d) as char
    }
}

fn hex_char(d: u8) -> (c: char)
    requires
        d < 16,
    ensures
        c == upper_hex(d as nat),
{
    if d < 10 {
        (48 + d) as char
    } else {
        (55 + d) as char
    }
}

/// Bytes as they stand in an address.
pub open spec fn escaped_bytes(bytes: Seq<u8>) -> Seq<char>
    decreases bytes.len(),
{
    if bytes.len() == 0 {
        Seq::empty()
    } else {
        escaped_bytes(bytes.drop_last()).push('%').push(
            upper_hex(bytes.last() as nat / 16),
        ).push(upper_hex(bytes.last() as nat % 16))
    }
}

pub open spec fn plain_in_address(c: char) -> bool {
    'a' <= c <= 'z' || 'A' <= c <= 'Z' || '0' <= c <= '9' || c == '-' || c == '_' || c == '.' || c
        == '~'
}

/// A text as it stands in an address.
pub open spec fn in_address(text: Seq<char>) -> Seq<char>
    decreases text.len(),
{
    if text.len() == 0 {
        text
    } else {
        let c = text.last();
        in_address(text.drop_last()) + if plain_in_address(c) {
            seq![c]
        } else if c == ' ' {
            seq!['+']
        } else {
            escaped_bytes(encode_utf8(seq![c]))
        }
    }
}

fn escape_char(out: &mut String, c: char)
    ensures
        final(out)@ == old(out)@ + escaped_bytes(encode_utf8(seq![c])),
{
    let mut one = String::new();
    one.push(c);
    assert(one@ =~= seq![c]);
    let bytes = one.as_str().as_bytes();
    let mut i: usize = 0;
    let ghost start = out@;
    let ghost all = bytes@;
    assert(all.take(0) =~= Seq::<u8>::empty());
    assert(start + escaped_bytes(all.take(0)) =~= start);
    while i < bytes.len()
        invariant
            i <= bytes.len(),
            bytes@ == all,
            out@ == start + escaped_bytes(all.take(i as int)),
        decreases bytes.len() - i,
    {
        let byte: u8 = bytes[i];
        proof {
            assert(all.take(i + 1).drop_last() =~= all.take(i as int));
            assert(all.take(i + 1).last() == byte);
        }
        out.push('%');
        out.push(hex_char(byte / 16));
        out.push(hex_char(byte % 16));
        assert(out@ =~= start + escaped_bytes(all.take(i + 1)));
        i += 1;
    }
    assert(all.take(i as int) =~= all);
}

/// A text as it stands in an address.
pub fn address_text(text: &str) -> (out: String)
    ensures
        out@ == in_address(text@),
{
    let chars = chars_of(text);
    let mut out = String::new();
    let mut i: usize = 0;
    let ghost all = chars@;
    assert(all.take(0) =~= Seq::<char>::empty());
    while i < chars.len()
        invariant
            i <= chars.len(),
            chars@ == all,
            out@ == in_address(all.take(i as int)),
        decreases chars.len() - i,
    {
        let c = chars[i];
        proof {
            assert(all.take(i + 1).drop_last() =~= all.take(i as int));
            assert(all.take(i + 1).last() == c);
        }
        let plain = ('a' <= c && c <= 'z') || ('A' <= c && c <= 'Z') || ('0' <= c && c <= '9') || c
            == '-' || c == '_' || c == '.' || c == '~';
        if plain {
            out.push(c);
            assert(out@ =~= in_address(all.take(i as int)) + seq![c]);
        } else if c == ' ' {
            out.push('+');
            assert(out@ =~= in_address(all.take(i as int)) + seq!['+']);
        } else {
            escape_char(&mut out, c);
        }
        i += 1;
    }
    assert(all.take(i as int) =~= all);
    out
}

pub open spec fn speech_check(text: Seq<char>) -> Result<Seq<char>, ApiErrorModel> {
    if trimmed(text).len() == 0 {
        Err(ApiErrorModel::bad("text is required"@))
    } else {
        Ok("http://127.0.0.1:8091/tts?text="@ + in_address(trimmed(text)))
    }
}

/// Where a text is read aloud.
pub fn speech_address(text: &str) -> (result: Result<String, ApiError>)
    ensures
        checked(result, speech_check(text@)),
{
    let said = trim(text);
    if said.as_str().is_empty() {
        return Err(ApiError::new(StatusCode::BadRequest, "text is required"));
    }
    Ok("http://127.0.0.1:8091/tts?text=".to_owned().concat(address_text(said.as_str()).as_str()))
}

/// The greatest number among the first `n` turns that are no summaries, and
/// nought where there is none.
pub open spec fn greatest_seq(turns: Seq<TurnModel>, n: nat) -> i64
    decreases n,
{
    if n == 0 {
        0
    } else {
        let before = greatest_seq(turns, (n - 1) as nat);
        if !turns[n - 1].is_summary && turns[n - 1].seq > before {
            turns[n - 1].seq
        } else {
            before
        }
    }
}

/// By what a page sees that there is something new: the greatest number of the
/// turns that it shows.
pub fn session_state(visible: &Vec<Turn>) -> (last_seq: i64)
    ensures
        last_seq == greatest_seq(visible.deep_view(), visible.deep_view().len()),
{
    let mut last: i64 = 0;
    let mut i: usize = 0;
    while i < visible.len()
        invariant
            i <= visible.len(),
            last == greatest_seq(visible.deep_view(), i as nat),
        decreases visible.len() - i,
    {
        assert(visible.deep_view()[i as int] == visible[i as int].deep_view());
        if !visible[i].is_summary && visible[i].seq > last {
            last = visible[i].seq;
        }
        i += 1;
    }
    last
}

/// How long a balance is not asked for again, in seconds.
pub const BALANCE_SECONDS: u64 = 60;

/// How long it is not where it could not be had.
pub const BALANCE_ERROR_SECONDS: u64 = 10;

/// Whether a balance that was had so many milliseconds ago is told again.
pub fn balance_is_fresh(failed: bool, elapsed_millis: u64) -> (fresh: bool)
    ensures
        fresh == (elapsed_millis < 1000 * (if failed {
            BALANCE_ERROR_SECONDS as int
        } else {
            BALANCE_SECONDS as int
        })),
{
    if failed {
        elapsed_millis < 1000 * BALANCE_ERROR_SECONDS
    } else {
        elapsed_millis < 1000 * BALANCE_SECONDS
    }
}

/// How many turns a search finds at most.
pub fn search_limit(limit: Option<usize>) -> (n: usize)
    ensures
        n == match limit {
            None => 30,
            Some(limit) => if limit < 1 {
                1
            } else if limit > 200 {
                200
            } else {
                limit
            },
        },
{
    match limit {
        None => 30,
        Some(limit) => {
            if limit < 1 {
                1
            } else if limit > 200 {
                200
            } else {
                limit
            }
        },
    }
}

pub open spec fn unfit_for_id() -> spec_fn(char) -> bool {
    |c: char|
        !('a' <= c <= 'z' || 'A' <= c <= 'Z' || '0' <= c <= '9' || c == '_' || c == '-')
}

/// Whether a text may be an id: letters, digits, lines and dashes, not too many.
pub open spec fn fit_id(id: Seq<char>) -> bool {
    0 < byte_len(id) <= 96 && !some_char(id, unfit_for_id())
}

/// Whether a text may be an id.
pub fn is_fit_id(id: &str) -> (fit: bool)
    ensures
        fit == fit_id(id@),
{
    let unfit = |c: char| -> (b: bool)
        ensures
            b == unfit_for_id()(c),
        {
            !(('a' <= c && c <= 'z') || ('A' <= c && c <= 'Z') || ('0' <= c && c <= '9') || c
                == '_' || c == '-')
        };
    id.len() > 0 && id.len() <= 96 && !any_char(id, &unfit, Ghost(unfit_for_id()))
}

/// How long a tool may work, in seconds.
pub fn tool_timeout(name: &str) -> (seconds: u64)
    ensures
        seconds == if name@ == "task"@ || name@ == "deep_research"@ {
            1800u64
        } else {
            180u64
        },
{
    if same(name, "task") || same(name, "deep_research") {
        1800
    } else {
        180
    }
}

pub open spec fn said_by(who: Seq<char>, content: Seq<char>) -> Seq<char> {
    if trimmed(content).len() > 0 {
        who + content + "\n\n"@
    } else {
        Seq::empty()
    }
}

/// The first `n` turns as a document.
pub open spec fn exported(turns: Seq<TurnModel>, n: nat) -> Seq<char>
    decreases n,
{
    if n == 0 {
        "# GQY 对话导出\n\n"@
    } else {
        let before = exported(turns, (n - 1) as nat);
        let turn = turns[n - 1];
        if turn.is_summary {
            before
        } else {
            before + ("## "@ + turn.user_timestamp + "\n\n"@) + said_by(
                "**你**：\n\n"@,
                turn.user_content,
            ) + said_by("**顾清影**：\n\n"@, turn.assistant_content)
        }
    }
}

fn say(who: &str, content: &str) -> (text: String)
    ensures
        text@ == said_by(who@, content@),
{
    if is_blank(content) {
        let text = String::new();
        assert(text@ =~= Seq::<char>::empty());
        text
    } else {
        who.to_owned().concat(content).concat("\n\n")
    }
}

/// A conversation as a document: all turns but summaries.
pub fn export_conversation(turns: &Vec<Turn>) -> (document: String)
    ensures
        document@ == exported(turns.deep_view(), turns.deep_view().len()),
{
    let mut document = "# GQY 对话导出\n\n".to_owned();
    let mut i: usize = 0;
    while i < turns.len()
        invariant
            i <= turns.len(),
            document@ == exported(turns.deep_view(), i as nat),
        decreases turns.len() - i,
    {
        let turn = &turns[i];
        assert(turns.deep_view()[i as int] == turn.deep_view());
        if !turn.is_summary {
            let heading = "## ".to_owned().concat(turn.user_timestamp.as_str()).concat("\n\n");
            document = document.concat(heading.as_str()).concat(
                say("**你**：\n\n", turn.user_content.as_str()).as_str(),
            ).concat(say("**顾清影**：\n\n", turn.assistant_content.as_str()).as_str());
        }
        i += 1;
    }
    document
}

/// The last event that a page has seen, by its address and by its header.
pub fn events_after(query: u64, last_event_id: Option<&str>) -> (after: u64)
    ensures
        after == {
            let header = match last_event_id {
                Some(text) => match number_of(text@) {
                    Some(id) => id,
                    None => 0,
                },
                None => 0,
            };
            if header > query {
                header
            } else {
                query
            }
        },
{
    let header: u64 = match last_event_id {
        Some(text) => match parse_number(text) {
            Some(id) => id,
            None => 0,
        },
        None => 0,
    };
    if header > query {
        header
    } else {
        query
    }
}

/// Where a message waits that is sent while a turn is running.
pub enum QueuePlace {
    /// With the run of this process.
    Run(String),
    /// With the turn of another process.
    Turn(RunningTurnQueueTarget),
}

/// The model of [`QueuePlace`].
#[verifier::ext_equal]
pub enum QueuePlaceModel {
    Run(Seq<char>),
    Turn(RunningTurnQueueTargetModel),
}

impl DeepView for QueuePlace {
    type V = QueuePlaceModel;

    open spec fn deep_view(&self) -> QueuePlaceModel {
        match self {
            QueuePlace::Run(run_id) => QueuePlaceModel::Run(run_id@),
            QueuePlace::Turn(target) => QueuePlaceModel::Turn(target.deep_view()),
        }
    }
}

pub open spec fn queue_check(
    manager: ManagerModel,
    target: Option<RunningTurnQueueTargetModel>,
) -> Result<
    QueuePlaceModel,
    ApiErrorModel,
> {
    if manager.admin_busy {
        Err(busy())
    } else {
        match manager.active_run_id {
            Some(run_id) => Ok(QueuePlaceModel::Run(run_id)),
            None => match target {
                None => Err(
                    ApiErrorModel::new(
                        StatusCode::Conflict,
                        "there is no active reply to follow up"@,
                    ),
                ),
                Some(target) => if target.queue_session_id is None || target.owner_pid is None {
                    Err(
                        ApiErrorModel::new(
                            StatusCode::Conflict,
                            "the running turn cannot accept messages from this WebUI"@,
                        ),
                    )
                } else {
                    Ok(QueuePlaceModel::Turn(target))
                },
            },
        }
    }
}

/// Where a message waits that is sent while a turn is running.
pub fn enqueue_running_prompt(
    manager: &ManagerState,
    target: Option<RunningTurnQueueTarget>,
) -> (result: Result<QueuePlace, ApiError>)
    ensures
        checked(result, queue_check(manager@, target.deep_view())),
{
    if manager.admin_busy {
        return Err(ApiError::new(StatusCode::Conflict, "GQY is busy with another operation"));
    }
    if let Some(run_id) = &manager.active_run_id {
        return Ok(QueuePlace::Run(run_id.clone()));
    }
    match target {
        None => Err(
            ApiError::new(StatusCode::Conflict, "there is no active reply to follow up"),
        ),
        Some(target) => {
            if target.queue_session_id.is_none() || target.owner_pid.is_none() {
                Err(
                    ApiError::new(
                        StatusCode::Conflict,
                        "the running turn cannot accept messages from this WebUI",
                    ),
                )
            } else {
                Ok(QueuePlace::Turn(target))
            }
        },
    }
}

pub open spec fn prompt_json(prompt: SafeQueuedPromptModel) -> Seq<char> {
    json_object(
        seq![
            ("content"@, json_text(prompt.content)),
            ("id"@, json_text(prompt.id)),
            ("submitted_at"@, json_text(prompt.submitted_at)),
        ],
    )
}

/// Tells the pages of a message that waits.
pub fn publish_queued_prompt(
    events: &mut EventHub,
    run_id: &Option<String>,
    turn_id: &Option<String>,
    prompt: &SafeQueuedPrompt,
)
    requires
        old(events)@.well_formed(),
    ensures
        final(events)@.well_formed(),
        final(events)@ == old(events)@.published(
            "queue.added"@,
            json_object(
                seq![
                    ("prompt"@, prompt_json(prompt.deep_view())),
                    ("run_id"@, maybe_json(run_id.deep_view())),
                    ("turn_id"@, maybe_json(turn_id.deep_view())),
                ],
            ),
        ),
{
    let inner = Fields::new().text("content", prompt.content.as_str()).text(
        "id",
        prompt.id.as_str(),
    ).text("submitted_at", prompt.submitted_at.as_str());
    assert(inner@ =~= seq![
        ("content"@, json_text(prompt.content@)),
        ("id"@, json_text(prompt.id@)),
        ("submitted_at"@, json_text(prompt.submitted_at@)),
    ]);
    let json = inner.object();
    let fields = Fields::new().raw("prompt", json.as_str()).maybe_text("run_id", run_id).maybe_text(
        "turn_id",
        turn_id,
    );
    assert(fields@ =~= seq![
        ("prompt"@, json@),
        ("run_id"@, maybe_json(run_id.deep_view())),
        ("turn_id"@, maybe_json(turn_id.deep_view())),
    ]);
    let _ = events.publish("queue.added", fields.object().as_str());
}

/// Ends the attempt to take back a message that waits, and tells the pages where
/// it was taken back.
pub fn remove_queue_prompt(
    events: &mut EventHub,
    prompt_id: &str,
    run_id: &Option<String>,
    turn_id: &Option<String>,
    removed: bool,
) -> (result: Result<(), ApiError>)
    requires
        old(events)@.well_formed(),
    ensures
        final(events)@.well_formed(),
        checked(
            result,
            if fit_id(prompt_id@) && removed {
                Ok(())
            } else {
                Err(ApiErrorModel::new(StatusCode::NotFound, "queued prompt not found"@))
            },
        ),
        final(events)@ == if fit_id(prompt_id@) && removed {
            old(events)@.published(
                "queue.removed"@,
                json_object(
                    seq![
                        ("prompt_id"@, json_text(prompt_id@)),
                        ("run_id"@, maybe_json(run_id.deep_view())),
                        ("turn_id"@, maybe_json(turn_id.deep_view())),
                    ],
                ),
            )
        } else {
            old(events)@
        },
{
    if !is_fit_id(prompt_id) || !removed {
        return Err(ApiError::new(StatusCode::NotFound, "queued prompt not found"));
    }
    let fields = Fields::new().text("prompt_id", prompt_id).maybe_text("run_id", run_id).maybe_text(
        "turn_id",
        turn_id,
    );
    assert(fields@ =~= seq![
        ("prompt_id"@, json_text(prompt_id@)),
        ("run_id"@, maybe_json(run_id.deep_view())),
        ("turn_id"@, maybe_json(turn_id.deep_view())),
    ]);
    let _ = events.publish("queue.removed", fields.object().as_str());
    Ok(())
}

/// Whether a run may be called off: the one at work.
pub fn cancel_run(manager: &ManagerState, run_id: &str) -> (result: Result<(), ApiError>)
    ensures
        checked(
            result,
            if manager@.active_run_id == Some(run_id@) {
                Ok(())
            } else {
                Err(ApiErrorModel::new(StatusCode::NotFound, "active run not found"@))
            },
        ),
{
    if same_some(&manager.active_run_id, run_id) {
        Ok(())
    } else {
        Err(ApiError::new(StatusCode::NotFound, "active run not found"))
    }
}

pub open spec fn answer_error(failure: AnswerFailureModel) -> ApiErrorModel {
    match failure {
        AnswerFailureModel::NotFound => ApiErrorModel::new(
            StatusCode::NotFound,
            "pending question not found"@,
        ),
        AnswerFailureModel::Invalid(message) => ApiErrorModel::bad(message),
        AnswerFailureModel::Gone => ApiErrorModel::new(
            StatusCode::Conflict,
            "the question is no longer awaiting an answer"@,
        ),
    }
}

/// What a page is told whose answer to a question was not taken.
pub fn answer_refused(failure: AnswerFailure) -> (error: ApiError)
    ensures
        error@ == answer_error(failure@),
{
    match failure {
        AnswerFailure::NotFound => ApiError::new(
            StatusCode::NotFound,
            "pending question not found",
        ),
        AnswerFailure::Invalid(message) => ApiError::new(StatusCode::BadRequest, message.as_str()),
        AnswerFailure::Gone => ApiError::new(
            StatusCode::Conflict,
            "the question is no longer awaiting an answer",
        ),
    }
}

/// The extension of a file that holds a picture of a media type.
pub open spec fn image_extension(mime: Seq<char>) -> Seq<char> {
    let parts = pieces(mime, is_char('/'));
    if parts.len() < 2 {
        "png"@
    } else if parts[1] == "jpeg"@ || parts[1] == "jpg"@ {
        "jpg"@
    } else if parts[1] == "gif"@ {
        "gif"@
    } else if parts[1] == "webp"@ {
        "webp"@
    } else {
        "png"@
    }
}

/// The name of the file that holds the picture at `index` that came with a turn.
pub fn user_image_file(turn_id: &str, index: u64, mime: &str) -> (name: String)
    ensures
        name@ == "user_image_"@ + turn_id@ + "_"@ + decimal(index as nat) + "."@ + image_extension(
            mime@,
        ),
{
    let parts = split_at_char(mime, '/');
    let extension = if parts.len() < 2 {
        "png"
    } else {
        assert(parts.deep_view()[1] == parts[1]@);
        let kind = parts[1].as_str();
        if same(kind, "jpeg") || same(kind, "jpg") {
            "jpg"
        } else if same(kind, "gif") {
            "gif"
        } else if same(kind, "webp") {
            "webp"
        } else {
            "png"
        }
    };
    "user_image_".to_owned().concat(turn_id).concat("_").concat(
        decimal_text(index).as_str(),
    ).concat(".").concat(extension)
}

/// The id of the tool that a picture at `index` is kept under that the user sent.
pub fn user_image_tool(index: u64) -> (id: String)
    ensures
        id@ == "user_image_"@ + decimal(index as nat),
{
    "user_image_".to_owned().concat(decimal_text(index).as_str())
}

/// Whether a page may send messages to the turn of another process: one is
/// running, no run of this process is at work, and the turn takes messages.
pub fn external_queue_available(
    manager: &ManagerState,
    target: &Option<RunningTurnQueueTarget>,
) -> (yes: bool)
    ensures
        yes == (manager@.active_run_id is None && (target.deep_view() matches Some(t)
            && t.queue_session_id is Some && t.owner_pid is Some)),
{
    if manager.active_run_id.is_some() {
        return false;
    }
    match target {
        Some(target) => target.queue_session_id.is_some() && target.owner_pid.is_some(),
        None => false,
    }
}

/// The engine that a page is told of: the provider in use, if there is one.
pub fn engine_name(provider: Option<(&str, bool)>) -> (name: String)
    ensures
        name@ == match provider {
            Some((id, is_pi)) => if is_pi {
                "pi"@
            } else {
                id@
            },
            None => "unknown"@,
        },
{
    match provider {
        Some((id, is_pi)) => {
            if is_pi {
                "pi".to_owned()
            } else {
                id.to_owned()
            }
        },
        None => "unknown".to_owned(),
    }
}

/// What a command to the engine is about, of what came with it.
pub open spec fn pi_value_of(command: PiCommandKind, field: Option<Option<Seq<char>>>) -> Seq<char> {
    if command is SetModel || command is SetThinking {
        match field {
            Some(Some(value)) => value,
            _ => Seq::empty(),
        }
    } else {
        Seq::empty()
    }
}

pub open spec fn pi_key(command: PiCommandKind) -> Seq<char> {
    if command is SetModel {
        "modelId"@
    } else {
        "level"@
    }
}

/// What a command to the engine is about, of what came with it: a model or a
/// level of thinking.
pub fn pi_value(command: PiCommandKind, body: &str) -> (value: String)
    ensures
        value@ == pi_value_of(command, parsed_field(body@, pi_key(command))),
{
    let key = match command {
        PiCommandKind::SetModel => "modelId",
        PiCommandKind::SetThinking => "level",
        _ => return String::new(),
    };
    match decode_field(body, key) {
        Some(Some(value)) => value,
        _ => String::new(),
    }
}

/// What a terminal that follows a run is sent of an event.
#[derive(Debug, Clone, Copy, PartialEq, Eq, Structural)]
pub enum FrameAction {
    /// That events are missing, and no more.
    Lost,
    /// Nothing, for it is about another run.
    Skip,
    /// Nothing, and no more: its run is over.
    Stop,
    Forward,
    /// The event, and no more.
    ForwardLast,
}

pub open spec fn is_last(kind: Seq<char>) -> bool {
    kind == "run.completed"@ || kind == "run.failed"@ || kind == "run.cancelled"@
}

/// What a terminal that follows `run_id` is sent of an event. `run` is the run
/// that the event tells of: nothing where it tells nothing, and no run where it
/// tells of none.
pub open spec fn frame(
    kind: Seq<char>,
    run: Option<Option<Seq<char>>>,
    run_id: Seq<char>,
    active: bool,
) -> FrameAction {
    if kind == "resync_required"@ {
        FrameAction::Lost
    } else {
        match run {
            None => FrameAction::Skip,
            Some(run) => if run != Some(run_id) {
                if active {
                    FrameAction::Skip
                } else {
                    FrameAction::Stop
                }
            } else if is_last(kind) {
                FrameAction::ForwardLast
            } else {
                FrameAction::Forward
            },
        }
    }
}

/// What a terminal that follows `run_id` is sent of an event about `run`, while
/// the run is at work or no more.
pub fn frame_for_run(
    kind: &str,
    run: &Option<Option<String>>,
    run_id: &str,
    active: bool,
) -> (action: FrameAction)
    ensures
        action == frame(kind@, run.deep_view(), run_id@, active),
{
    if same(kind, "resync_required") {
        return FrameAction::Lost;
    }
    match run {
        None => FrameAction::Skip,
        Some(run) => {
            if !same_some(run, run_id) {
                if active {
                    FrameAction::Skip
                } else {
                    FrameAction::Stop
                }
            } else if same(kind, "run.completed") || same(kind, "run.failed") || same(
                kind,
                "run.cancelled",
            ) {
                FrameAction::ForwardLast
            } else {
                FrameAction::Forward
            }
        },
    }
}

/// What a terminal that follows `run_id` is sent of an event, while the run is at
/// work or no more.
pub fn follow_frame(kind: &str, data: &str, run_id: &str, active: bool) -> (action: FrameAction)
    ensures
        action == frame(kind@, parsed_field(data@, "run_id"@), run_id@, active),
{
    let run = decode_field(data, "run_id");
    frame_for_run(kind, &run, run_id, active)
}

} // verus!
