//! Laws of who is let in, of what the pages are told, of the questions that a run
//! asks, and of the changes that a page asks for.

use crate::facts::{lemma_filter_contains, lemma_first, lemma_rejected};
use crate::laws::secrets::{law_answers_are_taken_trimmed, lemma_first_is};
use crate::state::db::DbModel;
use crate::state::turns::running_in;
use crate::table::{any, first, not};
use crate::text::trimmed;
use crate::web::actor::AdminFailureModel;
use crate::web::admin::{AdminChange, ConfigStage, ConfigStepModel};
use crate::web::answers::normalized;
use crate::web::auth::{
    auth_check, cookie, digest_of, mutation_check, of_peer, pair_value, pairs_value, AuthModel,
    LoginFailure, MAX_SESSIONS,
};
use crate::web::error::StatusCode;
use crate::web::events::{
    answered, of_run, with_id, HubModel, PendingQuestionModel, StreamModel, RESYNC_REQUIRED,
};
use crate::web::manager::ManagerModel;
use crate::web::requests::admission;
use crate::web::util::{shown_error, AUTH_COOKIE, EVENT_CAPACITY, LOGIN_ATTEMPT_LIMIT, LOGIN_WINDOW};
use vstd::prelude::*;

verus! {

/// Who gives the right password, and has not failed too often, is let in with a
/// token; who gives a wrong one is not.
pub proof fn law_right_password_lets_in(
    auth: AuthModel,
    set_to: Seq<char>,
    peer: Seq<char>,
    password: Seq<char>,
    now: u64,
    token: Seq<char>,
    after: AuthModel,
    result: Result<Seq<char>, LoginFailure>,
)
    requires
        auth.digest == Some(digest_of(set_to)),
        auth.attempt_of(peer, now).failures < LOGIN_ATTEMPT_LIMIT,
        auth.login(peer, password, now, token, after, result),
    ensures
        password == set_to ==> result == Ok::<Seq<char>, LoginFailure>(token),
        digest_of(password) != digest_of(set_to) ==> result == Err::<Seq<char>, LoginFailure>(
            LoginFailure::Invalid,
        ),
        after.digest == auth.digest,
{
}

/// Who has not tried before, or whose last tries are long enough ago, starts with no
/// failures.
pub proof fn law_old_failures_are_forgotten(auth: AuthModel, peer: Seq<char>, now: u64)
    requires
        forall|i: int|
            0 <= i < auth.attempts.len() && (#[trigger] auth.attempts[i]).peer == peer
                ==> auth.attempts[i].window_started + LOGIN_WINDOW <= now,
    ensures
        auth.attempt_of(peer, now).failures == 0,
        auth.attempt_of(peer, now).window_started == now,
{
    lemma_first(auth.attempts, of_peer(peer));
    if let Some(attempt) = first(auth.attempts, of_peer(peer)) {
        let i = auth.attempts.index_of(attempt);
        assert(auth.attempts[i].peer == peer);
    }
}

/// A login does not shut out who is in, as long as there are not too many.
pub proof fn law_login_keeps_others_in(
    auth: AuthModel,
    peer: Seq<char>,
    password: Seq<char>,
    now: u64,
    token: Seq<char>,
    after: AuthModel,
    known: Seq<char>,
)
    requires
        auth.login(peer, password, now, token, after, Ok::<Seq<char>, LoginFailure>(token)),
        auth.digest is Some,
        auth.sessions.contains(known),
        auth.sessions.to_set().insert(token).len() <= MAX_SESSIONS,
    ensures
        after.authenticates(Some(known)),
{
    assert(auth.sessions.to_set().contains(known));
    assert(after.sessions.to_set().contains(known));
}

/// Where a password is set, nobody is let in without a token that a login gave.
pub proof fn law_strangers_stay_out(
    auth: AuthModel,
    cookies: Seq<Option<Seq<char>>>,
    origins: Seq<Option<Seq<char>>>,
    host: Option<Seq<char>>,
)
    requires
        auth.digest is Some,
        cookie(cookies, AUTH_COOKIE@) matches Some(token) ==> !auth.sessions.contains(token),
    ensures
        auth_check(auth, cookies) matches Err(error) && error.status == StatusCode::Unauthorized,
        mutation_check(auth, cookies, origins, host) matches Err(error) && error.status
            == StatusCode::Unauthorized,
{
}

/// A change is accepted from a page of this address, or from what is no page; a page
/// of another address is refused, whoever has logged in.
pub proof fn law_foreign_pages_change_nothing(
    auth: AuthModel,
    cookies: Seq<Option<Seq<char>>>,
    origins: Seq<Option<Seq<char>>>,
    host: Seq<char>,
    origin: Seq<char>,
)
    requires
        auth_check(auth, cookies) is Ok,
    ensures
        mutation_check(auth, cookies, Seq::empty(), Some(host)) is Ok,
        mutation_check(auth, cookies, seq![Some("http://"@ + host)], Some(host)) is Ok,
        origin != "http://"@ + host ==> (mutation_check(
            auth,
            cookies,
            seq![Some(origin)],
            Some(host),
        ) matches Err(error) && error.status == StatusCode::Forbidden),
        origins.len() > 1 ==> mutation_check(auth, cookies, origins, Some(host)) is Err,
        mutation_check(auth, cookies, seq![Some(origin)], None) is Err,
        mutation_check(auth, cookies, seq![None], Some(host)) is Err,
{
}

/// Of several pairs in a cookie header the first with the name counts.
pub proof fn law_first_pair_counts(pairs: Seq<Seq<char>>, name: Seq<char>, k: int)
    requires
        0 <= k < pairs.len(),
        pair_value(pairs[k], name) is Some,
        forall|i: int| 0 <= i < k ==> pair_value(#[trigger] pairs[i], name) is None,
    ensures
        pairs_value(pairs, name) == pair_value(pairs[k], name),
    decreases pairs.len(),
{
    if k > 0 {
        assert(pair_value(pairs[0], name) is None);
        let rest = pairs.drop_first();
        assert(rest[k - 1] == pairs[k]);
        assert forall|i: int| 0 <= i < k - 1 implies pair_value(#[trigger] rest[i], name) is None by {
            assert(rest[i] == pairs[i + 1]);
        }
        law_first_pair_counts(rest, name, k - 1);
    }
}

/// An event that is told is kept with its words, and only the oldest is given up for
/// it, where there are too many.
pub proof fn law_told_event_is_kept(hub: HubModel, kind: Seq<char>, data: Seq<char>, i: int)
    requires
        hub.well_formed(),
    ensures
        ({
            let after = hub.published(kind, data);
            &&& after.records.len() > 0
            &&& after.records.last().kind == kind
            &&& after.records.last().data == data
            &&& after.records.last().id == hub.next_id
            &&& after.records.len() <= EVENT_CAPACITY
            &&& hub.records.len() < EVENT_CAPACITY && 0 <= i < hub.records.len()
                ==> after.records[i] == hub.records[i]
            &&& 0 < i < hub.records.len() ==> after.records.contains(hub.records[i])
        }),
{
    let after = hub.published(kind, data);
    if 0 < i < hub.records.len() {
        if hub.records.len() == EVENT_CAPACITY {
            assert(after.records[i - 1] == hub.records[i]);
        } else {
            assert(after.records[i] == hub.records[i]);
        }
    }
}

/// A page that has missed events that are kept no more, or that knows of events that
/// never were, is told to load everything again.
pub proof fn law_page_that_missed_events_starts_again(hub: HubModel, after: u64)
    requires
        hub.well_formed(),
        hub.next_id < u64::MAX,
        after >= hub.next_id || (hub.records.len() > 0 && after + 1 < hub.records[0].id),
    ensures
        ({
            let (next, sent) = hub.replayed(after);
            &&& sent.len() == 1
            &&& sent[0].kind == RESYNC_REQUIRED@
            &&& sent[0].id == hub.next_id
            &&& next.records == hub.records
            &&& next.next_id == hub.next_id + 1
        }),
{
}

/// What a page is told next is the first of what waits for it that it has not been
/// told, and what it was told before is not told again. Where it is told nothing,
/// nothing new waited.
pub proof fn law_page_is_told_news_only(stream: StreamModel)
    ensures
        ({
            let (after, told) = stream.told();
            &&& told matches Some(record) ==> {
                &&& stream.pending.contains(record)
                &&& record.kind == RESYNC_REQUIRED@ || record.id > stream.last_id
                &&& after.last_id == record.id
                &&& after.pending.len() < stream.pending.len()
            }
            &&& told is None ==> after.pending.len() == 0 && after.last_id == stream.last_id
                && forall|i: int|
                0 <= i < stream.pending.len() ==> (#[trigger] stream.pending[i]).kind
                    != RESYNC_REQUIRED@ && stream.pending[i].id <= stream.last_id
        }),
    decreases stream.pending.len(),
{
    if stream.pending.len() > 0 {
        let record = stream.pending[0];
        let rest = stream.pending.drop_first();
        assert(stream.pending.contains(record));
        if !(record.kind == RESYNC_REQUIRED@ || record.id > stream.last_id) {
            let next = StreamModel { pending: rest, ..stream };
            law_page_is_told_news_only(next);
            let (after, told) = next.told();
            if let Some(found) = told {
                let k = rest.index_of(found);
                assert(stream.pending[k + 1] == found);
            } else {
                assert forall|i: int| 0 <= i < stream.pending.len() implies (
                #[trigger] stream.pending[i]).kind != RESYNC_REQUIRED@ && stream.pending[i].id
                    <= stream.last_id by {
                    if i > 0 {
                        assert(rest[i - 1] == stream.pending[i]);
                    }
                }
            }
        }
    }
}

/// Whether a question waits for its answer.
pub open spec fn is_asked(pending: Seq<PendingQuestionModel>, question_id: Seq<char>) -> bool {
    exists|i: int| 0 <= i < pending.len() && (#[trigger] pending[i]).question_id == question_id
}

/// A question is answered once: the answer goes to the run that asked, and the
/// question waits no more; the others wait as before. An answer to a question that
/// nobody asked, or that was answered, is refused, and a refused answer leaves the
/// question as it is.
pub proof fn law_question_is_answered_once(
    pending: Seq<PendingQuestionModel>,
    question_id: Seq<char>,
    answers: Seq<Seq<Seq<char>>>,
    fault: Option<Seq<char>>,
    other: PendingQuestionModel,
    later: Seq<Seq<Seq<char>>>,
    later_fault: Option<Seq<char>>,
)
    ensures
        !is_asked(pending, question_id) ==> (answered(
            pending,
            question_id,
            answers,
            fault,
        ) matches Err(failure) && failure is NotFound),
        is_asked(pending, question_id) ==> !(answered(
            pending,
            question_id,
            answers,
            fault,
        ) matches Err(failure) && failure is NotFound),
        answered(pending, question_id, answers, fault) matches Ok((left, answer)) ==> {
            &&& !is_asked(left, question_id)
            &&& answered(left, question_id, later, later_fault) matches Err(failure)
                && failure is NotFound
            &&& left.contains(other) == (pending.contains(other) && other.question_id
                != question_id)
            &&& exists|i: int|
                0 <= i < pending.len() && (#[trigger] pending[i]).question_id == question_id
                    && pending[i].run_id == answer.0
        },
{
    let p = with_id(question_id);
    lemma_first(pending, p);
    lemma_rejected(pending, p);
    lemma_filter_contains(pending, not(p), other);
    if any(pending, p) {
        let i = choose|i: int| 0 <= i < pending.len() && p(#[trigger] pending[i]);
        assert(pending[i].question_id == question_id);
        let found = first(pending, p)->0;
        let k = pending.index_of(found);
        assert(pending[k].question_id == question_id && pending[k].run_id == found.run_id);
    }
    if is_asked(pending, question_id) {
        let i = choose|i: int|
            0 <= i < pending.len() && (#[trigger] pending[i]).question_id == question_id;
        assert(p(pending[i]));
    }
    let left = pending.filter(not(p));
    lemma_first(left, p);
    if is_asked(left, question_id) {
        let i = choose|i: int|
            0 <= i < left.len() && (#[trigger] left[i]).question_id == question_id;
        assert(p(left[i]));
    }
}

/// Calling a run off takes back what it has asked, and nothing that others asked.
pub proof fn law_called_off_run_asks_nothing(
    pending: Seq<PendingQuestionModel>,
    run_id: Seq<char>,
    question: PendingQuestionModel,
)
    ensures
        pending.filter(not(of_run(run_id))).contains(question) == (pending.contains(question)
            && question.run_id != run_id),
{
    lemma_filter_contains(pending, not(of_run(run_id)), question);
}

/// An answer reaches the run that asked, trimmed and in its order, where it can be
/// taken; where it cannot, the run is told nothing.
pub proof fn law_answer_reaches_the_run_that_asked(
    pending: Seq<PendingQuestionModel>,
    question_id: Seq<char>,
    answers: Seq<Seq<Seq<char>>>,
    fault: Option<Seq<char>>,
    i: int,
    a: int,
    b: int,
)
    requires
        0 <= i < pending.len(),
        pending[i].question_id == question_id,
        forall|j: int| 0 <= j < i ==> (#[trigger] pending[j]).question_id != question_id,
    ensures
        answered(pending, question_id, answers, fault) is Ok <==> normalized(
            pending[i].request,
            answers,
            fault,
        ) is Ok,
        answered(pending, question_id, answers, fault) matches Ok((left, (run_id, taken))) ==> {
            &&& run_id == pending[i].run_id
            &&& taken.len() == answers.len()
            &&& 0 <= a < answers.len() ==> taken[a].len() == answers[a].len()
            &&& 0 <= a < answers.len() && 0 <= b < answers[a].len() ==> taken[a][b] == trimmed(
                answers[a][b],
            )
        },
{
    lemma_first_is(pending, with_id(question_id), i);
    law_answers_are_taken_trimmed(pending[i].request, answers, fault, a, b, 0);
}

/// A message begins a run of its own where no turn of the session is running and the
/// assistant is free; it is refused where the assistant is not, and waits where a turn
/// is running.
pub proof fn law_when_a_message_begins_a_run(
    db: DbModel,
    session_id: Seq<char>,
    manager: ManagerModel,
    i: int,
)
    ensures
        (forall|j: int|
            0 <= j < db.turns.len() && (#[trigger] db.turns[j]).session_id == session_id
                ==> db.turns[j].status != "running"@) ==> (admission(
            db,
            session_id,
            manager,
        ) is Ok <==> manager.active_run_id is None && !manager.admin_busy),
        0 <= i < db.turns.len() && db.turns[i].session_id == session_id && db.turns[i].status
            == "running"@ ==> !(admission(db, session_id, manager) matches Ok(taken)
            && taken is Run),
{
    let p = running_in(session_id);
    if any(db.turns, p) {
        let j = choose|j: int| 0 <= j < db.turns.len() && p(#[trigger] db.turns[j]);
        assert(db.turns[j].status == "running"@);
    }
    if 0 <= i < db.turns.len() && db.turns[i].session_id == session_id && db.turns[i].status
        == "running"@ {
        assert(p(db.turns[i]));
    }
}

/// A configuration is changed step by step: the documents are read and then written,
/// what belongs to personas moves, the assistant is made anew and measured, and then
/// the configuration is saved; the conversation is reset last, and only where that was
/// asked for.
pub proof fn law_configuration_is_changed_step_by_step(stage: ConfigStage, reset: bool)
    ensures
        ConfigStage::ReadPrompts.step(None, reset) == ConfigStepModel::Next(
            ConfigStage::WritePrompts,
        ),
        ConfigStage::SaveConfig.step(None, true) == ConfigStepModel::Next(ConfigStage::Reset),
        ConfigStage::SaveConfig.step(None, false) == ConfigStepModel::Next(ConfigStage::Done),
        ConfigStage::Reset.step(None, reset) == ConfigStepModel::Next(ConfigStage::Done),
        !(stage is SaveConfig || stage is Done) ==> (stage.step(
            None,
            reset,
        ) matches ConfigStepModel::Next(next) && next.rank() == stage.rank() + 1),
        ConfigStage::WritePrompts.rank() < ConfigStage::MoveScopes.rank()
            < ConfigStage::BuildAgent.rank() < ConfigStage::MeasureContext.rank()
            < ConfigStage::SaveConfig.rank(),
{
}

/// A page is told of a change that it asked for that it was made, or why not, as the
/// fault of the page or of the assistant.
pub proof fn law_page_is_told_of_its_change(change: AdminChange, message: Seq<char>)
    ensures
        change.told(Some(Ok(()))) is Ok,
        change.told(None) matches Err(error) && error.status == StatusCode::ServiceUnavailable,
        change.told(Some(Err(AdminFailureModel::Invalid(message)))) matches Err(error)
            && error.message == message && error.status == (if change is Conversation {
            StatusCode::Conflict
        } else {
            StatusCode::BadRequest
        }),
        change.told(Some(Err(AdminFailureModel::Internal(message)))) matches Err(error)
            && error.status == StatusCode::InternalServerError && error.message == shown_error(
            message,
        ),
{
}

} // verus!
