//! Laws of what the pages are shown, of what they may send, and of what they are
//! told of a run.

use crate::facts::lemma_filter_contains;
use crate::state::types::{ImageAssetModel, RunningTurnQueueTargetModel, TurnModel, TurnStatus};
use crate::text::{control, decimal, trimmed};
use crate::web::handlers::{
    exported, fit_id, frame, greatest_seq, in_address, plain_in_address, queue_check, said_by,
    unfit_for_id, QueuePlaceModel,
};
use crate::web::manager::{ContextSnapshot, ManagerModel};
use crate::web::models::{
    ActiveProviderModelConfigModel, ChannelSummaryModel, SafeImageAssetModel, SafeTurnModel,
};
use crate::web::run::{
    completed_json, error_json, run_json, ChatOutcomeModel, ChatResultModel, OverflowOutcomeModel,
    RunEventModel, RunWorld, StageModel,
};
use crate::web::sessions::{of_turn, shown_turns};
use crate::web::types::{
    content_check, is_control_fn, listed_channel, models_check, redacted, selection_check,
    short_field_check, unfit_for_content,
};
use crate::web::util::{dotted, fit_to_show, shown_error, MAX_CONTENT_CHARS};
use crate::words::{line_of, some_char, stands_at};
use vstd::arithmetic::div_mod::lemma_fundamental_div_mod_converse;
use vstd::prelude::*;

verus! {

/// Whether a picture is shown as it is kept.
pub open spec fn shows_picture(shown: SafeImageAssetModel, asset: ImageAssetModel) -> bool {
    &&& shown.id == asset.asset_id
    &&& shown.url == "/api/assets/"@ + asset.asset_id
    &&& shown.mime == asset.mime
    &&& shown.width == asset.width
    &&& shown.height == asset.height
    &&& shown.alt == asset.alt
    &&& asset.tool_id is None ==> shown.source == "tool"@
}

/// Whether a turn is shown as it is kept: what was asked as it is, what was answered
/// without the words that only stand in for an answer, and whether it is part of the
/// conversation still.
pub open spec fn shows_turn(shown: SafeTurnModel, turn: TurnModel) -> bool {
    &&& shown.id == turn.turn_id
    &&& shown.seq == turn.seq
    &&& shown.status == (match turn.status {
        TurnStatus::Running => "running"@,
        TurnStatus::Completed => "completed"@,
        TurnStatus::Interrupted => "interrupted"@,
    })
    &&& shown.active_context <==> !turn.hidden
    &&& shown.user_content == turn.user_content
    &&& shown.assistant_content == redacted(turn.assistant_content)
    &&& shown.assistant_reasoning is Some <==> turn.assistant_reasoning is Some
    &&& turn.assistant_reasoning matches Some(text) ==> shown.assistant_reasoning == Some(
        redacted(text),
    )
    &&& shown.provider_id == turn.assistant_provider_id
    &&& shown.model == turn.assistant_model
    &&& shown.user_timestamp == turn.user_timestamp
    &&& shown.assistant_timestamp == turn.assistant_timestamp
    &&& shown.token_total == turn.token_total
    &&& shown.token_usage_estimated == turn.token_usage_estimated
    &&& shown.question_exchanges == turn.question_exchanges
    &&& shown.followups.len() == turn.followups.len()
    &&& forall|k: int|
        0 <= k < turn.followups.len() ==> {
            let f = turn.followups[k];
            let s = #[trigger] shown.followups[k];
            &&& s.id == f.prompt_id
            &&& s.content == f.display_content
            &&& s.submitted_at == f.submitted_at
            &&& s.preceding_assistant_content is Some <==> f.preceding_assistant_content is Some
            &&& f.preceding_assistant_content matches Some(text) ==> s.preceding_assistant_content
                == Some(redacted(text))
            &&& s.provider_id == f.preceding_assistant_provider_id
            &&& s.model == f.preceding_assistant_model
        }
}

/// Whether a turn is shown with its own pictures, and with no others.
pub open spec fn shows_pictures(
    shown: SafeTurnModel,
    turn: TurnModel,
    assets: Seq<ImageAssetModel>,
) -> bool {
    let own = assets.filter(|a: ImageAssetModel| a.turn_id == turn.turn_id);
    &&& shown.assets.len() == own.len()
    &&& forall|k: int| 0 <= k < own.len() ==> shows_picture(#[trigger] shown.assets[k], own[k])
}

/// A page shows every turn that is no summary, in order, with its own pictures.
pub proof fn law_page_shows_the_conversation(
    turns: Seq<TurnModel>,
    assets: Seq<ImageAssetModel>,
    n: nat,
)
    requires
        n <= turns.len(),
    ensures
        ({
            let told = turns.take(n as int).filter(|t: TurnModel| !t.is_summary);
            let shown = shown_turns(turns, assets, n);
            &&& shown.len() == told.len()
            &&& forall|k: int|
                0 <= k < told.len() ==> shows_turn(#[trigger] shown[k], told[k]) && shows_pictures(
                    shown[k],
                    told[k],
                    assets,
                )
        }),
    decreases n,
{
    reveal(Seq::filter);
    let p = |t: TurnModel| !t.is_summary;
    if n == 0 {
        assert(turns.take(0) =~= Seq::<TurnModel>::empty());
    } else {
        law_page_shows_the_conversation(turns, assets, (n - 1) as nat);
        let all = turns.take(n as int);
        assert(all.drop_last() =~= turns.take(n - 1));
        assert(all.last() == turns[n - 1]);
        let turn = turns[n - 1];
        let q = |a: ImageAssetModel| a.turn_id == turn.turn_id;
        assert(of_turn(turn.turn_id) =~= q);
        let before = shown_turns(turns, assets, (n - 1) as nat);
        let shown = shown_turns(turns, assets, n);
        let told = all.filter(p);
        let told_before = turns.take(n - 1).filter(p);
        assert forall|k: int| 0 <= k < told.len() implies shows_turn(#[trigger] shown[k], told[k])
            && shows_pictures(shown[k], told[k], assets) by {
            if k < before.len() {
                assert(shown[k] == before[k]);
                assert(told[k] == told_before[k]);
                assert(shows_turn(before[k], told_before[k]));
            }
        }
    }
}

/// A message is taken, trimmed, if it is not blank, not too long, and holds no
/// control character but those that end lines and tabs; no other is.
pub proof fn law_message_is_taken_trimmed(content: Seq<char>)
    ensures
        content_check(content) is Ok <==> {
            &&& 0 < trimmed(content).len() <= MAX_CONTENT_CHARS
            &&& forall|i: int|
                0 <= i < trimmed(content).len() ==> {
                    let c = #[trigger] trimmed(content)[i];
                    control(c) ==> c == '\n' || c == '\r' || c == '\t'
                }
        },
        content_check(content) matches Ok(taken) ==> taken == trimmed(content),
{
    let p = unfit_for_content();
    let s = trimmed(content);
    if some_char(s, p) {
        let i = choose|i: int| 0 <= i < s.len() && p(#[trigger] s[i]);
        assert(control(s[i]));
    } else {
        assert forall|i: int| 0 <= i < s.len() implies {
            let c = #[trigger] s[i];
            control(c) ==> c == '\n' || c == '\r' || c == '\t'
        } by {
            assert(!p(s[i]));
        }
    }
}

/// Whether a text can stand in a short field.
pub open spec fn short(value: Seq<char>, max_chars: nat) -> bool {
    &&& 0 < trimmed(value).len() <= max_chars
    &&& forall|i: int| 0 <= i < trimmed(value).len() ==> !control(#[trigger] trimmed(value)[i])
}

/// A short text is taken, trimmed, if it is not blank, not too long, and holds no
/// control character; no other is.
pub proof fn law_short_text_is_taken_trimmed(value: Seq<char>, field: Seq<char>, max_chars: nat)
    ensures
        short_field_check(value, field, max_chars) is Ok <==> short(value, max_chars),
        short_field_check(value, field, max_chars) matches Ok(taken) ==> taken == trimmed(value),
{
    let p = is_control_fn();
    let s = trimmed(value);
    if some_char(s, p) {
        let i = choose|i: int| 0 <= i < s.len() && p(#[trigger] s[i]);
        assert(control(s[i]));
    } else {
        assert forall|i: int| 0 <= i < s.len() implies !control(#[trigger] s[i]) by {
            assert(!p(s[i]));
        }
    }
}

proof fn lemma_selection(models: Seq<ActiveProviderModelConfigModel>, n: nat)
    requires
        n <= models.len(),
    ensures
        models_check(models, n) matches Ok(taken) ==> {
            &&& taken.len() == n
            &&& forall|i: int|
                0 <= i < n ==> {
                    &&& (#[trigger] taken[i]).provider_id == trimmed(models[i].provider_id)
                    &&& taken[i].model == trimmed(models[i].model)
                }
        },
        models_check(models, n) is Ok <==> {
            &&& forall|i: int|
                0 <= i < n ==> short((#[trigger] models[i]).provider_id, 200) && short(
                    models[i].model,
                    500,
                )
            &&& forall|i: int, j: int|
                0 <= i < j < n ==> trimmed((#[trigger] models[i]).provider_id) != trimmed(
                    (#[trigger] models[j]).provider_id,
                ) || trimmed(models[i].model) != trimmed(models[j].model)
        },
    decreases n,
{
    if n > 0 {
        lemma_selection(models, (n - 1) as nat);
        let model = models[n - 1];
        law_short_text_is_taken_trimmed(model.provider_id, "provider_id"@, 200);
        law_short_text_is_taken_trimmed(model.model, "model"@, 500);
        let choice = ActiveProviderModelConfigModel {
            provider_id: trimmed(model.provider_id),
            model: trimmed(model.model),
        };
        if let Ok(done) = models_check(models, (n - 1) as nat) {
            if done.contains(choice) {
                let k = done.index_of(choice);
                assert(done[k] == choice);
                assert(!(trimmed(models[k].provider_id) != trimmed(models[n - 1].provider_id)
                    || trimmed(models[k].model) != trimmed(models[n - 1].model)));
            } else {
                assert forall|i: int| 0 <= i < n - 1 implies trimmed(
                    (#[trigger] models[i]).provider_id,
                ) != trimmed(model.provider_id) || trimmed(models[i].model) != trimmed(
                    model.model,
                ) by {
                    if trimmed(models[i].provider_id) == trimmed(model.provider_id) && trimmed(
                        models[i].model,
                    ) == trimmed(model.model) {
                        assert(done[i] == choice);
                    }
                }
            }
        }
    }
}

/// A selection of models is taken, in order and trimmed, if there is one, there are
/// not too many, each is named, and none is chosen twice; no other is.
pub proof fn law_which_models_can_be_chosen(models: Seq<ActiveProviderModelConfigModel>)
    ensures
        selection_check(models) is Ok <==> {
            &&& 0 < models.len() <= 64
            &&& forall|i: int|
                0 <= i < models.len() ==> short((#[trigger] models[i]).provider_id, 200) && short(
                    models[i].model,
                    500,
                )
            &&& forall|i: int, j: int|
                0 <= i < j < models.len() ==> trimmed((#[trigger] models[i]).provider_id)
                    != trimmed((#[trigger] models[j]).provider_id) || trimmed(models[i].model)
                    != trimmed(models[j].model)
        },
        selection_check(models) matches Ok(taken) ==> {
            &&& taken.len() == models.len()
            &&& forall|i: int|
                0 <= i < models.len() ==> {
                    &&& (#[trigger] taken[i]).provider_id == trimmed(models[i].provider_id)
                    &&& taken[i].model == trimmed(models[i].model)
                }
        },
{
    lemma_selection(models, models.len());
}

/// A channel is listed under the first line of what was last asked in it, with the
/// first line of the answer, unless that is still to come, and with the time of the
/// answer where there is one.
pub proof fn law_channel_is_listed(summary: ChannelSummaryModel)
    ensures
        ({
            let shown = listed_channel(summary);
            &&& shown.id == summary.channel
            &&& shown.turn_count == summary.turn_count
            &&& shown.last_seq == summary.last_seq
            &&& summary.recent is None ==> !shown.running && shown.timestamp is None
                && shown.snippet.len() == 0
            &&& summary.recent matches Some(recent) ==> {
                &&& shown.running <==> recent.status == "running"@
                &&& line_of(recent.user_content) matches Some(line) ==> shown.title == line
                &&& recent.assistant_timestamp is Some ==> shown.timestamp
                    == recent.assistant_timestamp
                &&& recent.assistant_timestamp is None ==> shown.timestamp == Some(
                    recent.user_timestamp,
                )
                &&& !shown.running ==> (line_of(recent.assistant_content) matches Some(line)
                    ==> shown.snippet == line)
                &&& !shown.running && line_of(recent.assistant_content) is None ==> (line_of(
                    recent.user_content,
                ) matches Some(line) ==> shown.snippet == line)
            }
        }),
{
}

/// A page sees that there is something new by the greatest number of a turn that is
/// no summary.
pub proof fn law_state_is_the_last_number(turns: Seq<TurnModel>, n: nat)
    requires
        n <= turns.len(),
    ensures
        forall|i: int|
            0 <= i < n && !(#[trigger] turns[i]).is_summary ==> turns[i].seq <= greatest_seq(
                turns,
                n,
            ),
        greatest_seq(turns, n) == 0 || exists|i: int|
            0 <= i < n && !(#[trigger] turns[i]).is_summary && turns[i].seq == greatest_seq(
                turns,
                n,
            ),
        greatest_seq(turns, n) >= 0,
    decreases n,
{
    if n > 0 {
        law_state_is_the_last_number(turns, (n - 1) as nat);
        let _ = turns[n - 1];
    }
}

/// Whether a text stands in a document, and behind it another.
pub open spec fn in_turn(
    document: Seq<char>,
    first: Seq<char>,
    second: Seq<char>,
    i: int,
    j: int,
) -> bool {
    stands_at(document, i, first) && stands_at(document, j, second) && i + first.len() <= j
}

/// What was asked and answered stands in the document that a conversation is turned
/// into, the question first; summaries do not.
pub proof fn law_document_tells_the_conversation(turns: Seq<TurnModel>, n: nat, i: int)
    requires
        0 <= i < n <= turns.len(),
    ensures
        !turns[i].is_summary && trimmed(turns[i].user_content).len() > 0 && trimmed(
            turns[i].assistant_content,
        ).len() > 0 ==> exists|a: int, b: int| #[trigger]
            in_turn(
                exported(turns, n),
                turns[i].user_content,
                turns[i].assistant_content,
                a,
                b,
            ),
        turns[n - 1].is_summary ==> exported(turns, n) == exported(turns, (n - 1) as nat),
        exported(turns, (n - 1) as nat).is_prefix_of(exported(turns, n)),
    decreases n,
{
    let before = exported(turns, (n - 1) as nat);
    let document = exported(turns, n);
    let turn = turns[n - 1];
    assert(document.take(before.len() as int) =~= before);
    if !turns[i].is_summary && trimmed(turns[i].user_content).len() > 0 && trimmed(
        turns[i].assistant_content,
    ).len() > 0 {
        let asked = turns[i].user_content;
        let answered = turns[i].assistant_content;
        if i < n - 1 {
            law_document_tells_the_conversation(turns, (n - 1) as nat, i);
            let (a, b) = choose|a: int, b: int| #[trigger] in_turn(before, asked, answered, a, b);
            assert(document.subrange(a, a + asked.len()) =~= before.subrange(
                a,
                a + asked.len(),
            ));
            assert(document.subrange(b, b + answered.len()) =~= before.subrange(
                b,
                b + answered.len(),
            ));
            assert(in_turn(document, asked, answered, a, b));
        } else {
            let head = before + ("## "@ + turn.user_timestamp + "\n\n"@);
            let one = said_by("**你**：\n\n"@, asked);
            let two = said_by("**顾清影**：\n\n"@, answered);
            let a = (head.len() + "**你**：\n\n"@.len()) as int;
            let b = (head.len() + one.len() + "**顾清影**：\n\n"@.len()) as int;
            assert(document == head + one + two);
            assert(document.subrange(a, a + asked.len()) =~= asked);
            assert(document.subrange(b, b + answered.len()) =~= answered);
            assert(in_turn(document, asked, answered, a, b));
        }
    }
}

/// A terminal is sent what happens in its own run and nothing of another; with the
/// last event of its run it is sent no more, and where events are missing it is told
/// so.
pub proof fn law_terminal_follows_its_run(
    kind: Seq<char>,
    run: Option<Option<Seq<char>>>,
    run_id: Seq<char>,
    active: bool,
)
    ensures
        kind != "resync_required"@ ==> (frame(kind, run, run_id, active) is Forward || frame(
            kind,
            run,
            run_id,
            active,
        ) is ForwardLast <==> run == Some(Some(run_id))),
        kind == "resync_required"@ ==> frame(kind, run, run_id, active) is Lost,
        frame(kind, run, run_id, active) is ForwardLast ==> kind == "run.completed"@ || kind
            == "run.failed"@ || kind == "run.cancelled"@,
        frame(kind, run, run_id, active) is Forward ==> kind != "run.completed"@ && kind
            != "run.failed"@ && kind != "run.cancelled"@,
        frame(kind, run, run_id, active) is Stop ==> !active,
{
}

/// A message goes to the run of this process or, where it has none, to the turn of
/// another that takes messages; while a change is made it goes nowhere.
pub proof fn law_where_a_message_goes(
    manager: ManagerModel,
    target: Option<RunningTurnQueueTargetModel>,
)
    ensures
        manager.admin_busy ==> queue_check(manager, target) is Err,
        !manager.admin_busy ==> (manager.active_run_id matches Some(run_id) ==> (queue_check(
            manager,
            target,
        ) matches Ok(QueuePlaceModel::Run(got)) && got == run_id)),
        !manager.admin_busy && manager.active_run_id is None ==> (queue_check(
            manager,
            target,
        ) is Ok <==> (target matches Some(t) && t.queue_session_id is Some && t.owner_pid is Some)),
        !manager.admin_busy && manager.active_run_id is None ==> (queue_check(
            manager,
            target,
        ) matches Ok(place) ==> (place matches QueuePlaceModel::Turn(t) && target == Some(t))),
{
}

/// What stands in an address for a text is put together of what stands for its parts;
/// letters and digits stand for themselves, and a blank becomes a plus sign.
pub proof fn law_address_is_put_together(a: Seq<char>, b: Seq<char>)
    ensures
        in_address(a + b) == in_address(a) + in_address(b),
        (forall|i: int| 0 <= i < b.len() ==> plain_in_address(#[trigger] b[i])) ==> in_address(b)
            == b,
        in_address(seq![' ']) == seq!['+'],
    decreases b.len(),
{
    assert(seq![' '].drop_last() =~= Seq::<char>::empty());
    assert(in_address(Seq::<char>::empty()) + seq!['+'] =~= seq!['+']);
    if b.len() == 0 {
        assert(a + b =~= a);
        assert(in_address(a) + in_address(b) =~= in_address(a));
    } else {
        law_address_is_put_together(a, b.drop_last());
        assert((a + b).drop_last() =~= a + b.drop_last());
        assert(in_address(a + b) =~= in_address(a) + in_address(b));
        if forall|i: int| 0 <= i < b.len() ==> plain_in_address(#[trigger] b[i]) {
            assert forall|i: int| 0 <= i < b.len() - 1 implies plain_in_address(
                #[trigger] b.drop_last()[i],
            ) by {
                assert(b.drop_last()[i] == b[i]);
            }
            assert(in_address(b) =~= b);
        }
    }
}

/// An id is made of letters, digits, lines and dashes.
pub proof fn law_ids_are_plain(id: Seq<char>, i: int)
    requires
        fit_id(id),
        0 <= i < id.len(),
    ensures
        id[i] != '/' && id[i] != '\\' && id[i] != '.' && id[i] != ' ' && !control(id[i]),
{
    assert(!unfit_for_id()(id[i]));
}

/// What a user is told of a failure is never blank and never long, and holds no
/// control character but those that end lines and tabs; a plain short message is told
/// as it is.
pub proof fn law_failure_is_told_plainly(message: Seq<char>)
    ensures
        0 < shown_error(message).len() <= 1000,
        forall|i: int|
            0 <= i < shown_error(message).len() ==> {
                let c = #[trigger] shown_error(message)[i];
                control(c) ==> c == '\n' || c == '\t'
            },
        trimmed(message).len() > 0 && message.len() <= 1000 && (forall|i: int|
            0 <= i < message.len() ==> !control(#[trigger] message[i])) ==> shown_error(message)
            == message,
{
    reveal_strlit("operation failed");
    let p = fit_to_show();
    let kept = message.filter(p);
    assert forall|i: int| 0 <= i < kept.len() implies p(#[trigger] kept[i]) by {
        assert(kept.contains(kept[i]));
        lemma_filter_contains(message, p, kept[i]);
    }
    let shown = shown_error(message);
    assert forall|i: int| 0 <= i < shown.len() implies {
        let c = #[trigger] shown[i];
        control(c) ==> c == '\n' || c == '\t'
    } by {
        if shown != "operation failed"@ {
            assert(shown[i] == kept[i]);
            assert(p(kept[i]));
        }
    }
    if forall|i: int| 0 <= i < message.len() ==> !control(#[trigger] message[i]) {
        lemma_all_kept(message, p);
    }
}

/// Where all fits, all is kept.
proof fn lemma_all_kept(s: Seq<char>, p: spec_fn(char) -> bool)
    requires
        forall|i: int| 0 <= i < s.len() ==> p(#[trigger] s[i]),
    ensures
        s.filter(p) == s,
    decreases s.len(),
{
    reveal(Seq::filter);
    if s.len() > 0 {
        assert forall|i: int| 0 <= i < s.len() - 1 implies p(#[trigger] s.drop_last()[i]) by {
            assert(p(s[i]));
        }
        lemma_all_kept(s.drop_last(), p);
        assert(p(s[s.len() - 1]));
        assert(s.drop_last().push(s.last()) =~= s);
    }
}

/// An address is written by its four numbers, the greatest first.
pub proof fn law_address_is_written_by_its_numbers(a: u8, b: u8, c: u8, d: u8)
    ensures
        dotted((a * 0x1000000 + b * 0x10000 + c * 0x100 + d) as u32) == decimal(a as nat) + "."@
            + decimal(b as nat) + "."@ + decimal(c as nat) + "."@ + decimal(d as nat),
{
    let n = a * 0x1000000 + b * 0x10000 + c * 0x100 + d;
    lemma_fundamental_div_mod_converse(
        n,
        0x1000000,
        a as int,
        b * 0x10000 + c * 0x100 + d,
    );
    lemma_fundamental_div_mod_converse(n, 0x10000, a * 256 + b, c * 0x100 + d);
    lemma_fundamental_div_mod_converse(a * 256 + b, 256, a as int, b as int);
    lemma_fundamental_div_mod_converse(n, 0x100, a * 0x10000 + b * 0x100 + c, d as int);
    lemma_fundamental_div_mod_converse(
        a * 0x10000 + b * 0x100 + c,
        256,
        a * 256 + b,
        c as int,
    );
}

/// How a run ends is told as it ended: one that was called off as called off, with no
/// error; one that failed with its error. What was measured is the context from then
/// on, and only the end of the assistant ends its work.
pub proof fn law_run_that_fails_is_told_so(
    before: RunWorld,
    run_id: Seq<char>,
    outcome: ChatOutcomeModel,
    context: Result<ContextSnapshot, Seq<char>>,
    again: Option<ContextSnapshot>,
)
    requires
        !(outcome is Finished),
    ensures
        ({
            let (after, stage) = before.advanced(
                run_id,
                StageModel::Chat,
                RunEventModel::ChatEnded(outcome),
                context,
                again,
            );
            let last = after.hub.records.last();
            &&& stage == StageModel::Ended(!(outcome is Shutdown))
            &&& after.hub.records.len() > 0
            &&& outcome matches ChatOutcomeModel::Failed(error) ==> last.kind == "run.failed"@
                && last.data == error_json(run_id, error)
            &&& !(outcome is Failed) ==> last.kind == "run.cancelled"@ && last.data == run_json(
                run_id,
            )
            &&& context matches Ok(measured) ==> after.manager.context == measured
            &&& context is Err ==> after.manager.context == before.manager.context
        }),
{
}

/// A run whose model has answered is told as done, with what it answered, whatever
/// becomes of the care for its context; an error in that is told before.
pub proof fn law_answered_run_is_told_done(
    before: RunWorld,
    run_id: Seq<char>,
    result: ChatResultModel,
    outcome: OverflowOutcomeModel,
    context: Result<ContextSnapshot, Seq<char>>,
    again: Option<ContextSnapshot>,
)
    requires
        before.hub.well_formed(),
    ensures
        ({
            let (answered, next) = before.advanced(
                run_id,
                StageModel::Chat,
                RunEventModel::ChatEnded(ChatOutcomeModel::Finished(result)),
                context,
                again,
            );
            &&& next == StageModel::Measure(result)
            &&& answered.hub == before.hub
            &&& answered.manager == before.manager
        }),
        before.advanced(
            run_id,
            StageModel::Measure(result),
            RunEventModel::Measured(None),
            context,
            again,
        ) == (before, StageModel::Overflow(result)),
        ({
            let (after, stage) = before.advanced(
                run_id,
                StageModel::Overflow(result),
                RunEventModel::OverflowEnded(outcome),
                context,
                again,
            );
            let records = after.hub.records;
            &&& stage == StageModel::Ended(!(outcome is Shutdown))
            &&& records.len() > 0
            &&& records.last().kind == "run.completed"@
            &&& records.last().data == completed_json(run_id, result, after.manager.context)
            &&& context matches Ok(measured) ==> after.manager.context == measured
            &&& outcome matches OverflowOutcomeModel::Failed(error) ==> records.len() > 1
                && records[records.len() - 2].kind == "context.error"@ && records[records.len()
                - 2].data == error_json(run_id, error)
        }),
{
}

} // verus!
