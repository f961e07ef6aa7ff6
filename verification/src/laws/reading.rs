//! Laws of reading the turns of a conversation.

use crate::facts::{lemma_filter_contains, lemma_order_contains};
use crate::json::strings_or_none;
use crate::state::cascade::turn_id_of;
use crate::state::checkpoint::question_of;
use crate::state::db::DbModel;
use crate::state::keys::{lemma_unique_filter, lemma_unique_ordered, unique};
use crate::state::queue::{by_prompt_seq, by_upload, waiting_in};
use crate::state::redo::consumed_by;
use crate::state::rows::{
    QuestionRowModel, QueuedPromptRowModel, TurnRowModel, UserAttachmentRowModel,
};
use crate::state::sessions::by_seq;
use crate::state::turns::{
    by_exchange, turn_except, turn_of, upload_of_turn, visible_turn, visible_turn_except,
};
use crate::state::types::{TurnModel, TurnStatus};
use crate::table::{
    in_order, last_of, lemma_order_by_in_order, lemma_order_by_len, order_by, orders,
};
use vstd::prelude::*;

verus! {

/// The item that all others precede comes last.
pub proof fn lemma_last_in_order<V>(s: Seq<V>, lt: spec_fn(V, V) -> bool, v: V)
    requires
        orders(lt),
        s.contains(v),
        forall|k: int| 0 <= k < s.len() && #[trigger] s[k] != v ==> lt(s[k], v),
    ensures
        last_of(order_by(s, lt)) == Some(v),
{
    let t = order_by(s, lt);
    lemma_order_contains(s, lt, v);
    lemma_order_by_in_order(s, lt);
    let k = t.index_of(v);
    let w = t[t.len() - 1];
    if w != v {
        assert(t.contains(w));
        lemma_order_contains(s, lt, w);
        let j = s.index_of(w);
        assert(lt(s[j], v));
        assert(!lt(t[t.len() - 1], t[k]));
    }
}

/// The turn that stands last among those that satisfy `p`.
pub proof fn lemma_last_of_session(db: DbModel, p: spec_fn(TurnRowModel) -> bool, i: int)
    requires
        0 <= i < db.turns.len(),
        p(db.turns[i]),
        forall|k: int|
            0 <= k < db.turns.len() && k != i && p(#[trigger] db.turns[k]) ==> db.turns[k].seq
                < db.turns[i].seq,
    ensures
        last_of(order_by(db.turns.filter(p), by_seq())) == Some(db.turns[i]),
{
    let mine = db.turns.filter(p);
    assert(db.turns.contains(db.turns[i]));
    lemma_filter_contains(db.turns, p, db.turns[i]);
    assert forall|k: int| 0 <= k < mine.len() && #[trigger] mine[k] != db.turns[i] implies by_seq()(
        mine[k],
        db.turns[i],
    ) by {
        assert(mine.contains(mine[k]));
        lemma_filter_contains(db.turns, p, mine[k]);
        let j = db.turns.index_of(mine[k]);
        assert(db.turns[j] == mine[k]);
    }
    lemma_last_in_order(mine, by_seq(), db.turns[i]);
}

/// Selecting and ordering rows.
pub proof fn lemma_listing<V>(
    s: Seq<V>,
    p: spec_fn(V) -> bool,
    lt: spec_fn(V, V) -> bool,
)
    requires
        orders(lt),
    ensures
        in_order(order_by(s.filter(p), lt), lt),
        order_by(s.filter(p), lt).len() == s.filter(p).len(),
        forall|v: V| #[trigger]
            order_by(s.filter(p), lt).contains(v) == (s.contains(v) && p(v)),
{
    lemma_order_by_in_order(s.filter(p), lt);
    lemma_order_by_len(s.filter(p), lt);
    assert forall|v: V| #[trigger]
        order_by(s.filter(p), lt).contains(v) == (s.contains(v) && p(v)) by {
        lemma_order_contains(s.filter(p), lt, v);
        lemma_filter_contains(s, p, v);
    }
}

/// Whether a turn that was read says what a row holds.
pub open spec fn tells(turn: TurnModel, row: TurnRowModel) -> bool {
    &&& turn.turn_id == row.turn_id
    &&& turn.seq == row.seq
    &&& turn.user_content == row.user_content
    &&& turn.display_content == row.display_content
    &&& turn.user_timestamp == row.user_timestamp
    &&& turn.assistant_content == row.assistant_content
    &&& turn.assistant_reasoning == row.assistant_reasoning
    &&& turn.assistant_provider_id == row.assistant_provider_id
    &&& turn.assistant_model == row.assistant_model
    &&& turn.assistant_timestamp == row.assistant_timestamp
    &&& row.status == "running"@ ==> turn.status == TurnStatus::Running
    &&& row.status == "interrupted"@ ==> turn.status == TurnStatus::Interrupted
    &&& row.status == "completed"@ ==> turn.status == TurnStatus::Completed
    &&& turn.tool_reports == strings_or_none(row.tool_reports)
    &&& turn.tool_flow == row.tool_flow
    &&& turn.hidden == row.hidden
    &&& turn.is_summary == row.is_summary
    &&& turn.owner_pid == row.owner_pid
    &&& row.token_total >= 0 ==> turn.token_total == row.token_total
    &&& row.token_prompt >= 0 ==> turn.token_prompt == row.token_prompt
    &&& row.token_cache_read >= 0 ==> turn.token_cache_read == row.token_cache_read
    &&& turn.token_usage_estimated == row.token_usage_estimated
    &&& turn.revision == row.revision
    &&& turn.context_messages == row.context_messages
}

/// Whether a turn says what a row holds that satisfies `p`.
pub open spec fn read_from(
    turn: TurnModel,
    rows: Seq<TurnRowModel>,
    p: spec_fn(TurnRowModel) -> bool,
) -> bool {
    exists|i: int| 0 <= i < rows.len() && p(#[trigger] rows[i]) && tells(turn, rows[i])
}

/// Whether the rows that satisfy `p`, and no others, were read, each once and in
/// the order of their places.
pub open spec fn read_in_order(
    read: Seq<TurnModel>,
    rows: Seq<TurnRowModel>,
    p: spec_fn(TurnRowModel) -> bool,
) -> bool {
    &&& forall|a: int, b: int|
        0 <= a < b < read.len() ==> (#[trigger] read[a]).seq <= (#[trigger] read[b]).seq
            && read[a].turn_id != read[b].turn_id
    &&& forall|k: int| 0 <= k < read.len() ==> read_from(#[trigger] read[k], rows, p)
    &&& forall|i: int|
        0 <= i < rows.len() && p(#[trigger] rows[i]) ==> exists|k: int|
            0 <= k < read.len() && tells(#[trigger] read[k], rows[i])
}

proof fn lemma_read(db: DbModel, p: spec_fn(TurnRowModel) -> bool)
    requires
        unique(db.turns, turn_id_of()),
    ensures
        read_in_order(db.turns_where(p), db.turns, p),
{
    let read = db.turns_where(p);
    let rows = order_by(db.turns.filter(p), by_seq());
    lemma_listing(db.turns, p, by_seq());
    lemma_unique_filter(db.turns, p, turn_id_of());
    lemma_unique_ordered(db.turns.filter(p), by_seq(), turn_id_of());
    lemma_statuses();
    assert forall|k: int| 0 <= k < read.len() implies tells(#[trigger] read[k], rows[k]) by {}
    assert forall|a: int, b: int| 0 <= a < b < read.len() implies (#[trigger] read[a]).seq <= (
    #[trigger] read[b]).seq && read[a].turn_id != read[b].turn_id by {
        assert(!by_seq()(rows[b], rows[a]));
        let ids = rows.map_values(turn_id_of());
        assert(ids[a] != ids[b]);
    }
    assert forall|k: int| 0 <= k < read.len() implies read_from(#[trigger] read[k], db.turns, p) by {
        assert(rows.contains(rows[k]));
        let i = db.turns.index_of(rows[k]);
        assert(tells(read[k], db.turns[i]));
    }
    assert forall|i: int| 0 <= i < db.turns.len() && p(#[trigger] db.turns[i]) implies exists|k: int|
        0 <= k < read.len() && tells(#[trigger] read[k], db.turns[i]) by {
        assert(db.turns.contains(db.turns[i]));
        assert(rows.contains(db.turns[i]));
        let k = rows.index_of(db.turns[i]);
        assert(tells(read[k], rows[k]));
    }
}

proof fn lemma_statuses()
    ensures
        TurnStatus::of("running"@) == TurnStatus::Running,
        TurnStatus::of("interrupted"@) == TurnStatus::Interrupted,
        TurnStatus::of("completed"@) == TurnStatus::Completed,
{
    reveal_strlit("running");
    reveal_strlit("interrupted");
    reveal_strlit("completed");
    assert("running"@.len() == 7);
    assert("interrupted"@.len() == 11);
    assert("completed"@.len() == 9);
}

/// Reading a conversation gives every turn of the session, and no other, with
/// what was asked and answered, in order. Leaving a turn out, or looking at what
/// is in view only, leaves out those turns and no others.
pub proof fn law_conversation_is_read(db: DbModel, session_id: Seq<char>, except: Seq<char>)
    requires
        db.well_formed(),
    ensures
        read_in_order(
            db.turns_where(turn_of(session_id)),
            db.turns,
            |r: TurnRowModel| r.session_id == session_id,
        ),
        read_in_order(
            db.turns_where(turn_except(session_id, except)),
            db.turns,
            |r: TurnRowModel| r.session_id == session_id && r.turn_id != except,
        ),
        read_in_order(
            db.turns_where(visible_turn(session_id)),
            db.turns,
            |r: TurnRowModel| r.session_id == session_id && !r.hidden,
        ),
        read_in_order(
            db.turns_where(visible_turn_except(session_id, except)),
            db.turns,
            |r: TurnRowModel| r.session_id == session_id && !r.hidden && r.turn_id != except,
        ),
{
    let all = |r: TurnRowModel| r.session_id == session_id;
    assert(turn_of(session_id) =~= all);
    lemma_read(db, all);
    let others = |r: TurnRowModel| r.session_id == session_id && r.turn_id != except;
    assert(turn_except(session_id, except) =~= others);
    lemma_read(db, others);
    let seen = |r: TurnRowModel| r.session_id == session_id && !r.hidden;
    assert(visible_turn(session_id) =~= seen);
    lemma_read(db, seen);
    let seen_others = |r: TurnRowModel|
        r.session_id == session_id && !r.hidden && r.turn_id != except;
    assert(visible_turn_except(session_id, except) =~= seen_others);
    lemma_read(db, seen_others);
}

/// A turn is read with the prompts that it took up, in their order, each in the
/// wording that the model was given and with what the model had said before it;
/// with the questions that were answered, in their order; and with the files
/// that came with it.
pub proof fn law_turn_is_read_with_its_parts(
    db: DbModel,
    row: TurnRowModel,
    prompt: QueuedPromptRowModel,
    question: QuestionRowModel,
    file: UserAttachmentRowModel,
)
    ensures
        ({
            let turn = db.full_turn()(row);
            let prompts = db.consumed(row.turn_id);
            let questions = order_by(db.questions.filter(question_of(row.turn_id)), by_exchange());
            let files = order_by(db.attachments.filter(upload_of_turn(row.turn_id)), by_upload());
            &&& prompts.contains(prompt) == (db.queued_prompts.contains(prompt) && prompt.turn_id
                == Some(row.turn_id) && prompt.status == "consumed"@)
            &&& forall|a: int, b: int|
                0 <= a < b < prompts.len() ==> (#[trigger] prompts[a]).seq <= (
                #[trigger] prompts[b]).seq
            &&& turn.followups.len() == prompts.len()
            &&& forall|k: int|
                0 <= k < prompts.len() ==> {
                    let followup = #[trigger] turn.followups[k];
                    &&& followup.prompt_id == prompts[k].prompt_id
                    &&& prompts[k].context_content matches Some(text) ==> followup.content == text
                    &&& prompts[k].context_content is None ==> followup.content
                        == prompts[k].content
                    &&& followup.display_content == prompts[k].display_content
                    &&& followup.attachments == prompts[k].attachments
                    &&& followup.submitted_at == prompts[k].submitted_at
                    &&& followup.preceding_assistant_content
                        == prompts[k].preceding_assistant_content
                    &&& followup.preceding_assistant_reasoning
                        == prompts[k].preceding_assistant_reasoning
                    &&& followup.preceding_assistant_provider_id
                        == prompts[k].preceding_assistant_provider_id
                    &&& followup.preceding_assistant_model == prompts[k].preceding_assistant_model
                }
            &&& questions.contains(question) == (db.questions.contains(question)
                && question.turn_id == row.turn_id)
            &&& forall|a: int, b: int|
                0 <= a < b < questions.len() ==> (#[trigger] questions[a]).exchange_index <= (
                #[trigger] questions[b]).exchange_index
            &&& turn.question_exchanges.len() == questions.len()
            &&& forall|k: int|
                0 <= k < questions.len() ==> (#[trigger] turn.question_exchanges[k]).payload
                    == questions[k].payload
            &&& files.contains(file) == (db.attachments.contains(file) && file.turn_id == Some(
                row.turn_id,
            ))
            &&& turn.attachments.len() == files.len()
            &&& forall|k: int|
                0 <= k < files.len() ==> #[trigger] turn.attachments[k] == files[k].attachment
        }),
{
    lemma_listing(db.queued_prompts, consumed_by(row.turn_id), by_prompt_seq());
    let prompts = db.consumed(row.turn_id);
    assert forall|a: int, b: int| 0 <= a < b < prompts.len() implies (#[trigger] prompts[a]).seq
        <= (#[trigger] prompts[b]).seq by {
        assert(!by_prompt_seq()(prompts[b], prompts[a]));
    }
    lemma_listing(db.questions, question_of(row.turn_id), by_exchange());
    let questions = order_by(db.questions.filter(question_of(row.turn_id)), by_exchange());
    assert forall|a: int, b: int| 0 <= a < b < questions.len() implies (
    #[trigger] questions[a]).exchange_index <= (#[trigger] questions[b]).exchange_index by {
        assert(!by_exchange()(questions[b], questions[a]));
    }
    lemma_order_contains(db.attachments.filter(upload_of_turn(row.turn_id)), by_upload(), file);
    lemma_filter_contains(db.attachments, upload_of_turn(row.turn_id), file);
}

/// The prompts that wait in a queue of a session are all of those that were put
/// there and not yet taken up, in their order.
pub proof fn law_waiting_prompts_are_listed(
    db: DbModel,
    session_id: Seq<char>,
    queue: Seq<char>,
    prompt: QueuedPromptRowModel,
)
    ensures
        ({
            let rows = db.waiting(session_id, queue);
            let prompts = db.queued_prompts_of(session_id, queue);
            &&& rows.contains(prompt) == (db.queued_prompts.contains(prompt) && prompt.status
                == "queued"@ && prompt.session_id == session_id && prompt.queue_session_id == Some(
                queue,
            ))
            &&& prompts.len() == rows.len()
            &&& forall|k: int|
                0 <= k < rows.len() ==> {
                    let told = #[trigger] prompts[k];
                    &&& told.prompt_id == rows[k].prompt_id
                    &&& told.seq == rows[k].seq
                    &&& rows[k].context_content is None ==> told.content == rows[k].content
                    &&& told.display_content == rows[k].display_content
                    &&& told.attachments == rows[k].attachments
                    &&& told.submitted_at == rows[k].submitted_at
                }
            &&& forall|a: int, b: int|
                0 <= a < b < prompts.len() ==> (#[trigger] prompts[a]).seq <= (
                #[trigger] prompts[b]).seq
        }),
{
    let rows = db.waiting(session_id, queue);
    lemma_listing(db.queued_prompts, waiting_in(session_id, queue), by_prompt_seq());
    let prompts = db.queued_prompts_of(session_id, queue);
    assert forall|a: int, b: int| 0 <= a < b < prompts.len() implies (#[trigger] prompts[a]).seq
        <= (#[trigger] prompts[b]).seq by {
        assert(!by_prompt_seq()(rows[b], rows[a]));
    }
}

} // verus!
