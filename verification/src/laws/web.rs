//! What holds of logins, events, secrets and runs.

use crate::facts::{
    lemma_filter_contains, lemma_filter_push, lemma_first, lemma_put_first, lemma_put_other,
    lemma_rejected,
};
use crate::state::db::DbModel;
use crate::state::journal::{INTERRUPTED_TEXT, PENDING_PLACEHOLDER};
use crate::paths::{below, same_path};
use crate::table::{any, first};
use crate::text::{decimal, digit, trimmed, white};
use crate::web::actor::{directed, ActorCommandModel};
use crate::web::admin::{ConfigStage, ConfigStepModel};
use crate::web::auth::{
    auth_check, becomes, cookie, elapsed, of_peer, pair_value, AuthModel, LoginAttemptModel,
    LoginFailure,
};
use crate::web::config::{
    known_key, provider_named, restored_providers, ProviderSecretModel, SecretConfigModel,
    SecretMutationModel,
};
use crate::web::error::ApiErrorModel;
use crate::web::events::{later_than, of_run, EventRecordModel, HubModel};
use crate::web::handlers::{login_reply, LoginReplyModel};
use crate::web::manager::{ContextSnapshot, ManagerModel};
use crate::web::mapper::{tool_id_of, AgentEventModel, MapperModel};
use crate::web::models::PromptDocumentModel;
use crate::web::prompts::{at_path, file_text, holding, with_removed, with_written};
use crate::web::requests::{admission, AdmissionModel};
use crate::web::run::{RunEventModel, RunWorld, StageModel};
use crate::web::types::redacted;
use crate::web::util::{
    url_safe, url_safe_text, AUTH_COOKIE, EVENT_CAPACITY, LOGIN_ATTEMPT_LIMIT, LOGIN_WINDOW,
};
use crate::words::{cut, is_char, lemma_cut_at, occurs, pieces, replaced, stands_at};
use vstd::prelude::*;

verus! {

/// Whoever logged in is known by the token that the login gave.
pub proof fn law_login_authenticates(
    auth: AuthModel,
    peer: Seq<char>,
    password: Seq<char>,
    now: u64,
    token: Seq<char>,
    after: AuthModel,
    given: Seq<char>,
)
    requires
        auth.login(
            peer,
            password,
            now,
            token,
            after,
            Ok::<Seq<char>, LoginFailure>(given),
        ),
    ensures
        after.authenticates(Some(given)),
{
    if auth.digest is Some {
        assert(after.sessions.to_set().contains(given));
    }
}

proof fn lemma_one_piece(s: Seq<char>, c: char)
    requires
        !s.contains(c),
    ensures
        pieces(s, is_char(c)) == seq![s],
    decreases s.len(),
{
    if s.len() > 0 {
        let rest = s.drop_last();
        if rest.contains(c) {
            assert(s[rest.index_of(c)] == c);
        }
        lemma_one_piece(rest, c);
        assert(s[s.len() - 1] != c);
        assert(pieces(rest, is_char(c)).drop_last().push(rest.push(s.last())) =~= seq![s]) by {
            assert(rest.push(s.last()) =~= s);
        }
    } else {
        assert(s =~= Seq::<char>::empty());
    }
}

proof fn lemma_nothing_to_trim(s: Seq<char>)
    requires
        forall|i: int| 0 <= i < s.len() ==> !white(#[trigger] s[i]),
    ensures
        trimmed(s) == s,
{
    if s.len() > 0 {
        assert(!white(s[0]));
        assert(!white(s[s.len() - 1]));
    }
}

/// The cookie that a login sets, sent back as a browser does, lets its sender
/// in: what stands in it before the first semicolon names the token.
pub proof fn law_login_cookie_lets_in(
    auth: AuthModel,
    peer: Seq<char>,
    password: Seq<char>,
    now: u64,
    token: Seq<char>,
    after: AuthModel,
)
    requires
        auth.login(peer, password, now, token, after, Ok::<Seq<char>, LoginFailure>(token)),
        url_safe_text(token),
    ensures
        login_reply(Ok::<Seq<char>, LoginFailure>(token)) matches LoginReplyModel::Cookie(header)
            && cut(header, ';') matches Some((sent, _)) && {
            &&& cookie(seq![Some(sent)], AUTH_COOKIE@) == Some(token)
            &&& auth_check(after, seq![Some(sent)]) == Ok::<(), ApiErrorModel>(())
        },
{
    reveal_strlit("gqy_session");
    reveal_strlit("=");
    reveal_strlit("; HttpOnly; SameSite=Strict; Path=/; Max-Age=86400");
    let name = AUTH_COOKIE@;
    let rest = "; HttpOnly; SameSite=Strict; Path=/; Max-Age=86400"@;
    let sent = name + "="@ + token;
    let header = sent + rest;
    let n = sent.len() as int;
    assert(name == "gqy_session"@);
    assert forall|i: int| 0 <= i < name.len() implies url_safe(#[trigger] name[i]) by {}
    assert forall|i: int| 0 <= i < sent.len() implies {
        &&& #[trigger] sent[i] != ';'
        &&& !white(sent[i])
        &&& sent[i] == '=' ==> i == name.len()
    } by {
        if i < name.len() {
            assert(sent[i] == name[i]);
        } else if i > name.len() {
            assert(sent[i] == token[i - name.len() - 1]);
        }
    }
    assert forall|j: int| 0 <= j < n implies #[trigger] header[j] != ';' by {
        assert(header[j] == sent[j]);
    }
    assert(header[n] == rest[0]);
    lemma_cut_at(header, ';', n);
    assert(header.take(n) =~= sent);
    lemma_one_piece(sent, ';');
    lemma_nothing_to_trim(sent);
    lemma_cut_at(sent, '=', name.len() as int);
    assert(sent.take(name.len() as int) =~= name);
    assert(sent.skip(name.len() as int + 1) =~= token);
    lemma_nothing_to_trim(name);
    lemma_nothing_to_trim(token);
    assert(pair_value(sent, name) == Some(token));
    assert(seq![sent][0] == sent);
    let headers = seq![Some(sent)];
    assert(headers[0] == Some(sent));
    law_login_authenticates(auth, peer, password, now, token, after, token);
}

/// Where no password is set, everyone is known.
pub proof fn law_no_password_no_lock(auth: AuthModel, supplied: Option<Seq<char>>)
    requires
        auth.digest is None,
    ensures
        auth.authenticates(supplied),
{
}

/// A failed login makes nobody known.
pub proof fn law_failed_login_opens_nothing(
    auth: AuthModel,
    peer: Seq<char>,
    password: Seq<char>,
    now: u64,
    token: Seq<char>,
    after: AuthModel,
    failure: LoginFailure,
    supplied: Option<Seq<char>>,
)
    requires
        auth.login(
            peer,
            password,
            now,
            token,
            after,
            Err::<Seq<char>, LoginFailure>(failure),
        ),
    ensures
        after.authenticates(supplied) == auth.authenticates(supplied),
{
}

/// A wrong password counts against its peer as long as the window is open.
pub proof fn law_wrong_password_counts(
    auth: AuthModel,
    peer: Seq<char>,
    password: Seq<char>,
    now: u64,
    token: Seq<char>,
    after: AuthModel,
    later: u64,
)
    requires
        auth.login(
            peer,
            password,
            now,
            token,
            after,
            Err::<Seq<char>, LoginFailure>(LoginFailure::Invalid),
        ),
        elapsed(later, auth.attempt_of(peer, now).window_started) < LOGIN_WINDOW,
    ensures
        after.attempt_of(peer, later).failures == auth.attempt_of(peer, now).failures + 1,
        after.attempt_of(peer, later).window_started == auth.attempt_of(peer, now).window_started,
{
    let attempt = auth.attempt_of(peer, now);
    let counted = LoginAttemptModel {
        failures: crate::web::auth::one_more(attempt.failures),
        ..attempt
    };
    let middle = auth.with_attempt(attempt);
    lemma_put_first(middle.attempts, of_peer(peer), becomes(counted), counted);
    lemma_first(middle.attempts, of_peer(peer));
}

/// Who has failed too often in a window is refused, with whatever password.
pub proof fn law_too_many_failures_lock(
    auth: AuthModel,
    peer: Seq<char>,
    password: Seq<char>,
    now: u64,
    token: Seq<char>,
    after: AuthModel,
    result: Result<Seq<char>, LoginFailure>,
)
    requires
        auth.digest is Some,
        auth.attempt_of(peer, now).failures >= LOGIN_ATTEMPT_LIMIT,
        auth.login(peer, password, now, token, after, result),
    ensures
        result == Err::<Seq<char>, LoginFailure>(LoginFailure::RateLimited),
{
}

/// What one peer does is not counted against another.
pub proof fn law_peers_are_apart(
    auth: AuthModel,
    peer: Seq<char>,
    other: Seq<char>,
    password: Seq<char>,
    now: u64,
    token: Seq<char>,
    after: AuthModel,
    result: Result<Seq<char>, LoginFailure>,
    later: u64,
)
    requires
        peer != other,
        auth.login(peer, password, now, token, after, result),
    ensures
        after.attempt_of(other, later) == auth.attempt_of(other, later),
{
    let attempt = auth.attempt_of(peer, now);
    let counted = LoginAttemptModel {
        failures: crate::web::auth::one_more(attempt.failures),
        ..attempt
    };
    lemma_put_other(auth.attempts, of_peer(peer), becomes(attempt), attempt, of_peer(other));
    lemma_put_other(
        auth.with_attempt(attempt).attempts,
        of_peer(peer),
        becomes(counted),
        counted,
        of_peer(other),
    );
}

/// Whether the events of a hub are numbered without repetition, and there are
/// numbers left.
pub open spec fn numbered_apart(hub: HubModel) -> bool {
    &&& hub.next_id < u64::MAX
    &&& forall|i: int, j: int|
        0 <= i < j < hub.records.len() ==> (#[trigger] hub.records[i]).id < (
        #[trigger] hub.records[j]).id
    &&& forall|i: int| 0 <= i < hub.records.len() ==> (#[trigger] hub.records[i]).id < hub.next_id
}

/// Every event has a greater number than all events before it.
pub proof fn law_event_ids_increase(hub: HubModel, kind: Seq<char>, data: Seq<char>)
    requires
        numbered_apart(hub),
    ensures
        ({
            let after = hub.published(kind, data);
            &&& after.records.last() == (EventRecordModel { id: hub.next_id, kind, data })
            &&& after.next_id == hub.next_id + 1
            &&& forall|i: int, j: int|
                0 <= i < j < after.records.len() ==> (#[trigger] after.records[i]).id < (
                #[trigger] after.records[j]).id
        }),
{
    let after = hub.published(kind, data);
    let shift: int = if hub.records.len() == EVENT_CAPACITY {
        1
    } else {
        0
    };
    assert forall|i: int, j: int| 0 <= i < j < after.records.len() implies (
    #[trigger] after.records[i]).id < (#[trigger] after.records[j]).id by {
        assert(after.records[i] == hub.records[i + shift]);
        if j < after.records.len() - 1 {
            assert(after.records[j] == hub.records[j + shift]);
        }
    }
}

/// Items that were in order are in order after some are left out.
proof fn lemma_filter_in_order(s: Seq<EventRecordModel>, after: u64)
    requires
        forall|i: int, j: int|
            0 <= i < j < s.len() ==> (#[trigger] s[i]).id <= (#[trigger] s[j]).id,
    ensures
        forall|i: int, j: int|
            0 <= i < j < s.filter(later_than(after)).len() ==> (#[trigger] s.filter(
                later_than(after),
            )[i]).id <= (#[trigger] s.filter(later_than(after))[j]).id,
    decreases s.len(),
{
    reveal(Seq::filter);
    let p = later_than(after);
    if s.len() > 0 {
        let rest = s.drop_last();
        assert forall|i: int, j: int| 0 <= i < j < rest.len() implies (#[trigger] rest[i]).id <= (
        #[trigger] rest[j]).id by {
            assert(rest[i] == s[i] && rest[j] == s[j]);
        }
        lemma_filter_in_order(rest, after);
        let kept = rest.filter(p);
        let all = s.filter(p);
        assert forall|i: int, j: int| 0 <= i < j < all.len() implies (#[trigger] all[i]).id <= (
        #[trigger] all[j]).id by {
            if p(s.last()) {
                assert(all == kept.push(s.last()));
                if j == kept.len() {
                    assert(kept.contains(kept[i]));
                    lemma_filter_contains(rest, p, kept[i]);
                    let k = rest.index_of(kept[i]);
                    assert(s[k] == kept[i]);
                    assert(s[s.len() - 1] == s.last());
                }
            }
        }
    }
}

/// What a page is sent again comes in order, holds nothing that it has seen, and
/// everything else that is kept.
pub proof fn law_replay_is_ordered_and_exclusive(hub: HubModel, after: u64)
    requires
        hub.well_formed(),
        !hub.lost(after),
    ensures
        ({
            let sent = hub.replayed(after).1;
            &&& hub.replayed(after).0 == hub
            &&& forall|i: int, j: int|
                0 <= i < j < sent.len() ==> (#[trigger] sent[i]).id <= (#[trigger] sent[j]).id
            &&& forall|r: EventRecordModel|
                sent.contains(r) == (#[trigger] hub.records.contains(r) && r.id > after)
        }),
{
    lemma_filter_in_order(hub.records, after);
    assert forall|r: EventRecordModel| hub.replayed(after).1.contains(r) == (
    #[trigger] hub.records.contains(r) && r.id > after) by {
        lemma_filter_contains(hub.records, later_than(after), r);
    }
}

/// A page that has seen everything is sent the next event, and nothing else.
pub proof fn law_next_event_is_sent(hub: HubModel, kind: Seq<char>, data: Seq<char>)
    requires
        numbered_apart(hub),
        hub.next_id >= 1,
    ensures
        hub.published(kind, data).replayed(hub.latest_id()).1 == seq![
            EventRecordModel { id: hub.next_id, kind, data },
        ],
{
    let after = hub.published(kind, data);
    let record = EventRecordModel { id: hub.next_id, kind, data };
    let kept = after.records.drop_last();
    let seen = later_than(hub.latest_id());
    assert(after.records =~= kept.push(record));
    assert forall|i: int| 0 <= i < kept.len() implies !seen(#[trigger] kept[i]) by {
        if hub.records.len() == EVENT_CAPACITY {
            assert(kept[i] == hub.records[i + 1]);
        } else {
            assert(kept[i] == hub.records[i]);
        }
    }
    assert(!any(kept, seen));
    crate::facts::lemma_filter_none(kept, seen);
    lemma_filter_push(kept, record, seen);
    assert(!after.lost(hub.latest_id())) by {
        if after.records.len() > 0 {
            if after.records.len() > 1 {
                assert(after.records[0] == kept[0]);
                if hub.records.len() == EVENT_CAPACITY {
                    assert(kept[0] == hub.records[1]);
                } else {
                    assert(kept[0] == hub.records[0]);
                }
            }
        }
    }
    assert(after.replayed(hub.latest_id()).1 =~= seq![record]);
}

/// What a page is shown of the configuration does not depend on any secret.
pub proof fn law_response_tells_no_secret(a: SecretConfigModel, b: SecretConfigModel)
    requires
        a.providers.len() == b.providers.len(),
        forall|i: int|
            0 <= i < a.providers.len() ==> (#[trigger] a.providers[i]).id == b.providers[i].id,
    ensures
        a.redacted() == b.redacted(),
        forall|i: int|
            0 <= i < a.providers.len() ==> (
            #[trigger] a.redacted().providers[i]).api_key is None,
{
    assert(a.redacted().providers =~= b.redacted().providers) by {
        assert forall|i: int| 0 <= i < a.providers.len() implies a.redacted().providers[i]
            == b.redacted().providers[i] by {
            assert(a.providers[i].id == b.providers[i].id);
        }
    }
}

/// What the first providers get that no page says anything of.
proof fn lemma_untouched_providers(
    candidate: Seq<ProviderSecretModel>,
    current: Seq<ProviderSecretModel>,
    n: nat,
)
    requires
        n <= candidate.len(),
    ensures
        restored_providers(
            candidate,
            current,
            Seq::<(Seq<char>, SecretMutationModel)>::empty(),
            n,
        ) matches Ok(done) && done.len() == n && forall|i: int|
            0 <= i < n ==> (#[trigger] done[i]) == (ProviderSecretModel {
                id: candidate[i].id,
                api_key: known_key(current, candidate[i].id),
            }),
    decreases n,
{
    if n > 0 {
        lemma_untouched_providers(candidate, current, (n - 1) as nat);
    }
}

/// A secret that a page says nothing of stays with the provider that has it, by
/// its id, wherever the provider stands; the other secrets stay too.
pub proof fn law_unmentioned_secrets_stay(candidate: SecretConfigModel, current: SecretConfigModel)
    ensures
        candidate.restored(
            current,
            Seq::<(Seq<char>, SecretMutationModel)>::empty(),
        ) matches Ok(restored) && restored.providers.len() == candidate.providers.len() && (
        forall|i: int|
            0 <= i < candidate.providers.len() ==> (#[trigger] restored.providers[i]) == (
            ProviderSecretModel {
                id: candidate.providers[i].id,
                api_key: known_key(current.providers, candidate.providers[i].id),
            })) && restored.tavily_api_keys == current.tavily_api_keys
            && restored.firecrawl_api_keys == current.firecrawl_api_keys
            && restored.anysearch_api_keys == current.anysearch_api_keys
            && restored.image_generation_api_keys == current.image_generation_api_keys
            && restored.exchange_rate_api_key == current.exchange_rate_api_key,
{
    lemma_untouched_providers(
        candidate.providers,
        current.providers,
        candidate.providers.len(),
    );
}

/// A configuration that a page sends back as it was shown it is the one that it
/// was, where no two providers have one id.
pub proof fn law_shown_config_comes_back(current: SecretConfigModel)
    requires
        forall|i: int, j: int|
            0 <= i < j < current.providers.len() ==> (#[trigger] current.providers[i]).id != (
            #[trigger] current.providers[j]).id,
    ensures
        current.redacted().restored(current, Seq::<(Seq<char>, SecretMutationModel)>::empty())
            == Ok::<SecretConfigModel, crate::web::error::ApiErrorModel>(current),
{
    law_unmentioned_secrets_stay(current.redacted(), current);
    let restored = current.redacted().restored(
        current,
        Seq::<(Seq<char>, SecretMutationModel)>::empty(),
    )->Ok_0;
    assert forall|i: int| 0 <= i < current.providers.len() implies restored.providers[i]
        == current.providers[i] by {
        let id = current.providers[i].id;
        assert(current.redacted().providers[i].id == id);
        lemma_first(current.providers, provider_named(id));
        assert(any(current.providers, provider_named(id))) by {
            assert(provider_named(id)(current.providers[i]));
        }
        let found = first(current.providers, provider_named(id))->Some_0;
        let j = current.providers.index_of(found);
        assert(current.providers[j].id == id);
        assert(i == j);
    }
    assert(restored.providers =~= current.providers);
    assert(restored =~= current);
}

/// A run that has ended is at work no more, and the last thing that the pages
/// were told is how it ended.
pub proof fn law_ended_run_is_told(
    before: RunWorld,
    run_id: Seq<char>,
    stage: StageModel,
    event: RunEventModel,
    context: Result<ContextSnapshot, Seq<char>>,
    again: Option<ContextSnapshot>,
)
    requires
        !(stage is Ended),
        before.advanced(run_id, stage, event, context, again).1 is Ended,
    ensures
        ({
            let after = before.advanced(run_id, stage, event, context, again).0;
            &&& after.manager.active_run_id != Some(run_id)
            &&& after.manager.admin_busy == before.manager.admin_busy
            &&& after.hub.records.len() > 0
            &&& {
                ||| after.hub.records.last().kind == "run.completed"@
                ||| after.hub.records.last().kind == "run.cancelled"@
                ||| after.hub.records.last().kind == "run.failed"@
            }
        }),
{
}

/// What a run asked is not answered any more once the model has ended its work.
pub proof fn law_ended_chat_asks_nothing(
    before: RunWorld,
    run_id: Seq<char>,
    event: RunEventModel,
    context: Result<ContextSnapshot, Seq<char>>,
    again: Option<ContextSnapshot>,
)
    requires
        event is ChatEnded,
    ensures
        !any(
            before.advanced(run_id, StageModel::Chat, event, context, again).0.pending,
            of_run(run_id),
        ),
{
    lemma_rejected(before.pending, of_run(run_id));
}

/// A run that has ended does not go on.
pub proof fn law_ended_run_stays(
    before: RunWorld,
    run_id: Seq<char>,
    more: bool,
    event: RunEventModel,
    context: Result<ContextSnapshot, Seq<char>>,
    again: Option<ContextSnapshot>,
)
    ensures
        before.advanced(run_id, StageModel::Ended(more), event, context, again) == (
            before,
            StageModel::Ended(more),
        ),
{
}

/// A run and a change of the configuration never have the assistant together:
/// who has it keeps the other out until it is given back.
pub proof fn law_runs_and_changes_exclude_each_other(manager: ManagerModel, run_id: Seq<char>)
    requires
        manager.free(),
    ensures
        !manager.reserved().free(),
        !manager.started(run_id).free(),
        manager.reserved().released() == manager,
        manager.started(run_id).finished(run_id, None) == manager,
{
}

/// While a run is at work, no change is made: who asks for one is told why, and
/// the reservation ends.
pub proof fn law_changes_wait_for_runs(
    command: ActorCommandModel,
    run_id: Seq<char>,
    manager: ManagerModel,
)
    requires
        command is SetModels || command is ApplyConfig || command is ResetConversation,
    ensures
        directed(Some(command), run_id, manager).refusal is Some,
        directed(Some(command), run_id, manager).directive is Continue,
        directed(Some(command), run_id, manager).manager == manager.released(),
{
}

/// Only a command for the run itself calls it off.
pub proof fn law_only_its_own_cancel_stops_a_run(
    command: ActorCommandModel,
    run_id: Seq<char>,
    manager: ManagerModel,
)
    ensures
        directed(Some(command), run_id, manager).directive is Cancel <==> command == (
        ActorCommandModel::Cancel { run_id }),
{
}

/// Whether a stage of a change of the configuration comes before another.
pub open spec fn comes_before(a: ConfigStage, b: ConfigStage) -> bool {
    a.rank() < b.rank()
}

/// Every stage that succeeds leads further, and a change that fails takes back
/// all that was done before: the documents once they were written, what belongs
/// to personas once it was moved, and the configuration once it may have been
/// saved.
pub proof fn law_failed_change_is_taken_back(
    stage: ConfigStage,
    error: Option<Seq<char>>,
    reset_conversation: bool,
)
    requires
        !(stage is Done),
    ensures
        match stage.step(error, reset_conversation) {
            ConfigStepModel::Next(next) => error is None && comes_before(stage, next),
            ConfigStepModel::Fail(_, undo) => {
                &&& error is Some
                &&& undo.prompts <==> comes_before(ConfigStage::WritePrompts, stage)
                &&& undo.scopes <==> comes_before(ConfigStage::MoveScopes, stage)
                &&& undo.config <==> comes_before(ConfigStage::MeasureContext, stage)
            },
        },
{
}

/// The number that a number is written as.
pub proof fn lemma_decimal_differs(a: nat, b: nat)
    requires
        a != b,
    ensures
        decimal(a) != decimal(b),
    decreases a + b,
{
    lemma_decimal_some(a);
    lemma_decimal_some(b);
    if decimal(a) == decimal(b) {
        assert(decimal(a).last() == digit(a % 10));
        assert(decimal(b).last() == digit(b % 10));
        assert(a % 10 == b % 10);
        assert(a / 10 != b / 10);
        if a >= 10 && b >= 10 {
            lemma_decimal_differs(a / 10, b / 10);
            assert(decimal(a).drop_last() =~= decimal(a / 10));
            assert(decimal(b).drop_last() =~= decimal(b / 10));
        } else if a >= 10 {
            lemma_decimal_some(a / 10);
            assert(decimal(a).len() == decimal(a / 10).len() + 1);
            assert(decimal(b).len() == 1);
        } else if b >= 10 {
            lemma_decimal_some(b / 10);
            assert(decimal(b).len() == decimal(b / 10).len() + 1);
            assert(decimal(a).len() == 1);
        }
    }
}

proof fn lemma_decimal_some(n: nat)
    ensures
        decimal(n).len() > 0,
        decimal(n).last() == digit(n % 10),
    decreases n,
{
    if n >= 10 {
        lemma_decimal_some(n / 10);
    }
}

/// No two tools of a run have one id.
pub proof fn law_tool_ids_differ(run_id: Seq<char>, a: u64, b: u64)
    requires
        a != b,
    ensures
        tool_id_of(run_id, a) != tool_id_of(run_id, b),
{
    lemma_decimal_differs(a as nat, b as nat);
    let head = run_id + "_tool_"@;
    let first_id = tool_id_of(run_id, a);
    let second_id = tool_id_of(run_id, b);
    assert(first_id.skip(head.len() as int) =~= decimal(a as nat));
    assert(second_id.skip(head.len() as int) =~= decimal(b as nat));
}

/// A tool that is called gets a number that none had before, and what it tells
/// and gives is told under its id.
pub proof fn law_tool_is_told_under_one_id(
    mapper: MapperModel,
    call: AgentEventModel,
    fallback: Seq<char>,
)
    requires
        call is ToolCall,
        mapper.tool_counter < u64::MAX,
    ensures
        ({
            let after = mapper.after(call);
            let id = tool_id_of(mapper.run_id, after.tool_counter);
            &&& after.tool_counter == mapper.tool_counter + 1
            &&& after.identity(fallback).0 == id
            &&& after.finishing(fallback).id == id
        }),
{
}

/// A file that is written for one document is written whatever other documents
/// there are: what is behind it in the list changes no more than its text.
proof fn lemma_written_stays(
    mutations: Seq<(Seq<char>, Option<Seq<char>>)>,
    documents: Seq<PromptDocumentModel>,
    dir: Seq<char>,
    n: nat,
    i: int,
)
    requires
        0 <= i < n <= documents.len(),
    ensures
        ({
            let written = with_written(mutations, documents, dir, n);
            let path = below(dir, documents[i].name);
            first(written, at_path(path)) matches Some(m) && m.1 is Some
        }),
    decreases n,
{
    let path = below(dir, documents[i].name);
    let done = with_written(mutations, documents, dir, (n - 1) as nat);
    let last = below(dir, documents[n - 1].name);
    let text = Some(file_text(documents[n - 1].content));
    if same_path(last, path) {
        assert(at_path(last) =~= at_path(path));
        lemma_put_first(done, at_path(path), holding(text), (last, text));
    } else {
        lemma_written_stays(mutations, documents, dir, (n - 1) as nat, i);
        lemma_put_other(done, at_path(last), holding(text), (last, text), at_path(path));
    }
}

proof fn lemma_removed_keeps(
    written: Seq<(Seq<char>, Option<Seq<char>>)>,
    current: Seq<PromptDocumentModel>,
    next: Seq<PromptDocumentModel>,
    dir: Seq<char>,
    next_dir: Seq<char>,
    n: nat,
    path: Seq<char>,
)
    requires
        n <= current.len(),
        first(written, at_path(path)) is Some,
    ensures
        first(with_removed(written, current, next, dir, next_dir, n), at_path(path)) == first(
            written,
            at_path(path),
        ),
    decreases n,
{
    if n > 0 {
        lemma_removed_keeps(written, current, next, dir, next_dir, (n - 1) as nat, path);
        let done = with_removed(written, current, next, dir, next_dir, (n - 1) as nat);
        let old_path = below(dir, current[n - 1].name);
        lemma_first(done, at_path(path));
        crate::facts::lemma_first_push(done, (old_path, None), at_path(path));
    }
}

/// The file of a document that stays or comes is written, and never removed,
/// however its directory is spelled.
pub proof fn law_documents_are_written(
    mutations: Seq<(Seq<char>, Option<Seq<char>>)>,
    current: Seq<PromptDocumentModel>,
    next: Seq<PromptDocumentModel>,
    dir: Seq<char>,
    next_dir: Seq<char>,
    i: int,
)
    requires
        0 <= i < next.len(),
    ensures
        ({
            let all = with_removed(
                with_written(mutations, next, next_dir, next.len()),
                current,
                next,
                dir,
                next_dir,
                current.len(),
            );
            first(all, at_path(below(next_dir, next[i].name))) matches Some(m) && m.1 is Some
        }),
{
    lemma_written_stays(mutations, next, next_dir, next.len(), i);
    lemma_removed_keeps(
        with_written(mutations, next, next_dir, next.len()),
        current,
        next,
        dir,
        next_dir,
        current.len(),
        below(next_dir, next[i].name),
    );
}

/// A text that holds none of something is the same after it was replaced.
proof fn lemma_nothing_replaced(s: Seq<char>, from: Seq<char>, to: Seq<char>)
    requires
        !occurs(s, from),
    ensures
        replaced(s, from, to) == s,
    decreases s.len(),
{
    if s.len() > 0 && from.len() > 0 {
        assert(!stands_at(s, 0, from));
        let rest = s.skip(1);
        if occurs(rest, from) {
            let i = choose|i: int| #[trigger] stands_at(rest, i, from);
            assert(rest.subrange(i, i + from.len()) =~= s.subrange(i + 1, i + 1 + from.len()));
            assert(stands_at(s, i + 1, from));
        }
        lemma_nothing_replaced(rest, from, to);
        assert(seq![s[0]] + rest =~= s);
    }
}

/// What is replaced in a text first is what stands in it first.
proof fn lemma_first_replaced(s: Seq<char>, from: Seq<char>, to: Seq<char>, i: int)
    requires
        from.len() > 0,
        stands_at(s, i, from),
        forall|j: int| 0 <= j < i ==> !stands_at(s, j, from),
    ensures
        replaced(s, from, to) == s.take(i) + to + replaced(s.skip(i + from.len()), from, to),
    decreases i,
{
    if i == 0 {
        assert(s.take(0) + to =~= to);
    } else {
        let rest = s.skip(1);
        assert(!stands_at(s, 0, from));
        assert(rest.subrange(i - 1, i - 1 + from.len()) =~= s.subrange(i, i + from.len()));
        assert(stands_at(rest, i - 1, from));
        assert forall|j: int| 0 <= j < i - 1 implies !stands_at(rest, j, from) by {
            if stands_at(rest, j, from) {
                assert(rest.subrange(j, j + from.len()) =~= s.subrange(j + 1, j + 1 + from.len()));
                assert(stands_at(s, j + 1, from));
            }
        }
        lemma_first_replaced(rest, from, to, i - 1);
        assert(rest.skip(i - 1 + from.len()) =~= s.skip(i + from.len()));
        let tail = replaced(s.skip(i + from.len()), from, to);
        assert(seq![s[0]] + (rest.take(i - 1) + to + tail) =~= s.take(i) + to + tail);
    }
}

/// A reply that holds neither of the words that stand for a reply is shown as it
/// is.
pub proof fn law_plain_reply_is_shown(text: Seq<char>)
    requires
        !occurs(text, PENDING_PLACEHOLDER@),
        !occurs(text, INTERRUPTED_TEXT@),
    ensures
        redacted(text) == text,
{
    lemma_nothing_replaced(text, PENDING_PLACEHOLDER@, Seq::empty());
    lemma_nothing_replaced(text, INTERRUPTED_TEXT@, Seq::empty());
}

/// The words that stand for a reply to come are not shown: what is shown is what
/// stands around them.
pub proof fn law_placeholder_is_not_shown(left: Seq<char>, right: Seq<char>)
    requires
        forall|j: int|
            0 <= j < left.len() ==> !stands_at(
                left + PENDING_PLACEHOLDER@ + right,
                j,
                PENDING_PLACEHOLDER@,
            ),
        !occurs(right, PENDING_PLACEHOLDER@),
        !occurs(left + right, INTERRUPTED_TEXT@),
    ensures
        redacted(left + PENDING_PLACEHOLDER@ + right) == left + right,
{
    reveal_strlit(
        "<system-reminder>上一轮prompt正在由另一轮回复处理中，你只需要回应用户当前的prompt，不要处理上一轮的prompt</system-reminder>",
    );
    let mark = PENDING_PLACEHOLDER@;
    let text = left + mark + right;
    let n = left.len() as int;
    assert(text.subrange(n, n + mark.len()) =~= mark);
    lemma_first_replaced(text, mark, Seq::empty(), n);
    assert(text.skip(n + mark.len()) =~= right);
    lemma_nothing_replaced(right, mark, Seq::empty());
    assert(text.take(n) + Seq::<char>::empty() + right =~= left + right);
    lemma_nothing_replaced(left + right, INTERRUPTED_TEXT@, Seq::empty());
}

/// The words that stand for a reply that was cut off are not shown: what is shown
/// is what stands around them.
pub proof fn law_interruption_is_not_shown(left: Seq<char>, right: Seq<char>)
    requires
        !occurs(left + INTERRUPTED_TEXT@ + right, PENDING_PLACEHOLDER@),
        forall|j: int|
            0 <= j < left.len() ==> !stands_at(
                left + INTERRUPTED_TEXT@ + right,
                j,
                INTERRUPTED_TEXT@,
            ),
        !occurs(right, INTERRUPTED_TEXT@),
    ensures
        redacted(left + INTERRUPTED_TEXT@ + right) == left + right,
{
    reveal_strlit(
        "<system-reminder>上一轮prompt已被中断，除非用户重新要求否则不要处理上一轮的prompt</system-reminder>",
    );
    let mark = INTERRUPTED_TEXT@;
    let text = left + mark + right;
    let n = left.len() as int;
    lemma_nothing_replaced(text, PENDING_PLACEHOLDER@, Seq::empty());
    assert(text.subrange(n, n + mark.len()) =~= mark);
    lemma_first_replaced(text, mark, Seq::empty(), n);
    assert(text.skip(n + mark.len()) =~= right);
    lemma_nothing_replaced(right, mark, Seq::empty());
    assert(text.take(n) + Seq::<char>::empty() + right =~= left + right);
}

/// One run at a time: once a message began a run, no other begins one before that
/// run is over, whatever the store is like by then.
pub proof fn law_one_run_at_a_time(
    before: DbModel,
    session_id: Seq<char>,
    manager: ManagerModel,
    run_id: Seq<char>,
    after: DbModel,
    other_session: Seq<char>,
)
    requires
        admission(before, session_id, manager) == Ok::<AdmissionModel, ApiErrorModel>(
            AdmissionModel::Run,
        ),
    ensures
        admission(after, other_session, manager.started(run_id)) != Ok::<
            AdmissionModel,
            ApiErrorModel,
        >(AdmissionModel::Run),
{
}

} // verus!
