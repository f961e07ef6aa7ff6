//! Reading turns with everything that hangs off them.

use crate::json::{strings_of, strings_or_none};
use crate::state::checkpoint::question_of;
use crate::state::db::{ConversationDb, DbModel};
use crate::state::journal::{by_event_id, sort_events};
use crate::state::queue::{by_prompt_seq, by_upload, sort_uploads, upload};
use crate::state::rows::{
    JournalEventRow, JournalEventRowModel, JournalSegmentRow, JournalSegmentRowModel, QuestionRow,
    QuestionRowModel, QueuedPromptRow, QueuedPromptRowModel, TurnRow, TurnRowModel,
    UserAttachmentRow, UserAttachmentRowModel,
};
use crate::state::sessions::{by_seq, folded, fold, plain_turn, sort_by_seq};
use crate::state::types::{
    QuestionExchange, QuestionExchangeModel, Turn, TurnFollowup, TurnFollowupModel,
    TurnJournalEvent, TurnJournalEventModel, TurnModel, TurnStatus, UserAttachment,
    UserAttachmentModel,
};
use crate::table::{
    any, count, count_rows, exists_row, last_of, last_row, limit, limited, map_rows, order_by,
    select, sorted, Row,
};
use crate::text::{chars_of, same, same_some};
use vstd::prelude::*;

verus! {

pub open spec fn turn_of(session_id: Seq<char>) -> spec_fn(TurnRowModel) -> bool {
    |r: TurnRowModel| r.session_id == session_id
}

pub open spec fn visible_turn(session_id: Seq<char>) -> spec_fn(TurnRowModel) -> bool {
    |r: TurnRowModel| r.session_id == session_id && !r.hidden
}

pub open spec fn turn_except(session_id: Seq<char>, turn_id: Seq<char>) -> spec_fn(
    TurnRowModel,
) -> bool {
    |r: TurnRowModel| r.session_id == session_id && r.turn_id != turn_id
}

pub open spec fn visible_turn_except(session_id: Seq<char>, turn_id: Seq<char>) -> spec_fn(
    TurnRowModel,
) -> bool {
    |r: TurnRowModel| visible_turn(session_id)(r) && r.turn_id != turn_id
}

pub open spec fn visible_summary(session_id: Seq<char>) -> spec_fn(TurnRowModel) -> bool {
    |r: TurnRowModel| visible_turn(session_id)(r) && r.is_summary
}

pub open spec fn evictable_turn(session_id: Seq<char>) -> spec_fn(TurnRowModel) -> bool {
    |r: TurnRowModel| plain_turn(session_id)(r) && r.status != "running"@
}

pub open spec fn running_in(session_id: Seq<char>) -> spec_fn(TurnRowModel) -> bool {
    |r: TurnRowModel| r.session_id == session_id && r.status == "running"@
}

pub open spec fn running_in_except(session_id: Seq<char>, turn_id: Seq<char>) -> spec_fn(
    TurnRowModel,
) -> bool {
    |r: TurnRowModel| running_in(session_id)(r) && r.turn_id != turn_id
}

pub open spec fn is_running() -> spec_fn(TurnRowModel) -> bool {
    |r: TurnRowModel| r.status == "running"@
}

pub open spec fn user_content_of() -> spec_fn(TurnRowModel) -> Seq<char> {
    |r: TurnRowModel| r.user_content
}

pub open spec fn by_exchange() -> spec_fn(QuestionRowModel, QuestionRowModel) -> bool {
    |a: QuestionRowModel, b: QuestionRowModel| a.exchange_index < b.exchange_index
}

pub open spec fn as_exchange() -> spec_fn(QuestionRowModel) -> QuestionExchangeModel {
    |r: QuestionRowModel| QuestionExchangeModel { payload: r.payload }
}

pub open spec fn upload_of_turn(turn_id: Seq<char>) -> spec_fn(UserAttachmentRowModel) -> bool {
    |r: UserAttachmentRowModel| r.turn_id == Some(turn_id)
}

pub open spec fn as_event() -> spec_fn(JournalEventRowModel) -> TurnJournalEventModel {
    |r: JournalEventRowModel| r.event
}

/// The segment of an event.
pub open spec fn holds(e: JournalEventRowModel) -> spec_fn(JournalSegmentRowModel) -> bool {
    |s: JournalSegmentRowModel|
        {
            &&& s.turn_id == e.turn_id
            &&& s.revision == e.event.revision
            &&& s.segment_index == e.event.segment_index
        }
}

pub open spec fn holds_in_force(e: JournalEventRowModel) -> spec_fn(
    JournalSegmentRowModel,
) -> bool {
    |s: JournalSegmentRowModel| holds(e)(s) && s.status != "superseded"@
}

/// The result of the tool call that an event belongs to.
pub open spec fn result_for(e: JournalEventRowModel) -> spec_fn(JournalEventRowModel) -> bool {
    |r: JournalEventRowModel|
        {
            &&& r.turn_id == e.turn_id
            &&& r.event.revision == e.event.revision
            &&& r.event.segment_index == e.event.segment_index
            &&& r.event.kind == "tool_result"@
            &&& r.event.call_id is Some
            &&& r.event.call_id == e.event.call_id
        }
}

/// Whether an event is about a tool call.
pub open spec fn about_tool(kind: Seq<char>) -> bool {
    ||| kind == "tool_call"@
    ||| kind == "tool_result"@
    ||| kind == "tool_progress"@
    ||| kind == "command_stdout"@
    ||| kind == "command_stderr"@
    ||| kind == "image"@
    ||| kind == "artifact"@
}

/// A stored count, which is never below 0 to its readers.
pub open spec fn tally(n: i64) -> u64 {
    if n < 0 {
        0
    } else {
        n as u64
    }
}

/// A turn without what hangs off it.
pub open spec fn bare_turn() -> spec_fn(TurnRowModel) -> TurnModel {
    |r: TurnRowModel|
        TurnModel {
            turn_id: r.turn_id,
            seq: r.seq,
            user_content: r.user_content,
            display_content: r.display_content,
            user_timestamp: r.user_timestamp,
            assistant_content: r.assistant_content,
            assistant_reasoning: r.assistant_reasoning,
            assistant_provider_id: r.assistant_provider_id,
            assistant_model: r.assistant_model,
            assistant_timestamp: r.assistant_timestamp,
            status: TurnStatus::of(r.status),
            tool_reports: strings_or_none(r.tool_reports),
            tool_flow: r.tool_flow,
            question_exchanges: Seq::empty(),
            followups: Seq::empty(),
            attachments: Seq::empty(),
            hidden: r.hidden,
            is_summary: r.is_summary,
            owner_pid: r.owner_pid,
            token_total: tally(r.token_total),
            token_prompt: tally(r.token_prompt),
            token_cache_read: tally(r.token_cache_read),
            token_usage_estimated: r.token_usage_estimated,
            revision: r.revision,
            journal_events: Seq::empty(),
            context_messages: r.context_messages,
        }
}

/// Whether `s` starts with `prefix` up to the case of ASCII letters.
pub open spec fn starts_folded(s: Seq<char>, prefix: Seq<char>) -> bool {
    s.len() >= prefix.len() && forall|i: int|
        0 <= i < prefix.len() ==> folded(s[i]) == folded(#[trigger] prefix[i])
}

/// Whether a prompt was made by the daemon to report on a background job.
pub open spec fn is_job_wake(user_content: Seq<char>) -> bool {
    starts_folded(user_content, "<background-job-report>"@)
}

/// A finished turn that reports on a background job.
pub open spec fn wake_turn_after(session_id: Seq<char>, after: i64) -> spec_fn(
    TurnRowModel,
) -> bool {
    |r: TurnRowModel|
        {
            &&& r.session_id == session_id
            &&& r.seq > after
            &&& (r.status == "completed"@ || r.status == "failed"@ || r.status == "interrupted"@)
            &&& is_job_wake(r.user_content)
        }
}

/// Whether a text holds anything but spaces. It ends before the first NUL.
pub open spec fn beyond_spaces(s: Seq<char>) -> bool {
    exists|i: int|
        {
            &&& 0 <= i < s.len()
            &&& #[trigger] s[i] != ' '
            &&& s[i] != '\0'
            &&& forall|j: int| 0 <= j < i ==> s[j] != '\0'
        }
}

/// What is shown of a report turn.
pub open spec fn wake_reply() -> spec_fn(TurnRowModel) -> (i64, Seq<char>, Seq<char>, Seq<char>) {
    |r: TurnRowModel|
        (
            r.seq,
            r.turn_id,
            r.display_content,
            if r.status == "completed"@ || beyond_spaces(r.assistant_content) {
                r.assistant_content
            } else {
                "（自动跟进未能完成：模型请求失败或被中断，可用 job_status 查看任务输出）"@
            },
        )
}

/// The largest `seq` of turns, or 0.
pub open spec fn largest_seq(turns: Seq<TurnRowModel>) -> i64 {
    match last_of(order_by(turns, by_seq())) {
        Some(turn) => turn.seq,
        None => 0,
    }
}

/// A prompt of the same owner that names its queue.
pub open spec fn queued_by(owner_pid: Option<i64>) -> spec_fn(QueuedPromptRowModel) -> bool {
    |r: QueuedPromptRowModel|
        owner_pid is Some && r.owner_pid == owner_pid && r.queue_session_id is Some
}

impl DbModel {
    /// A prompt that a turn took up.
    pub open spec fn as_followup(self) -> spec_fn(QueuedPromptRowModel) -> TurnFollowupModel {
        |r: QueuedPromptRowModel|
            TurnFollowupModel {
                prompt_id: r.prompt_id,
                content: match r.context_content {
                    Some(text) => text,
                    None => r.content,
                },
                display_content: r.display_content,
                attachments: r.attachments,
                uploaded_attachments: self.uploads_of(r.prompt_id),
                submitted_at: r.submitted_at,
                preceding_assistant_content: r.preceding_assistant_content,
                preceding_assistant_reasoning: r.preceding_assistant_reasoning,
                preceding_assistant_provider_id: r.preceding_assistant_provider_id,
                preceding_assistant_model: r.preceding_assistant_model,
            }
    }

    /// An event of a turn's generation that is still shown: of a superseded
    /// segment only the tool calls that came to a result.
    pub open spec fn shown_event(self, turn_id: Seq<char>, revision: i64) -> spec_fn(
        JournalEventRowModel,
    ) -> bool {
        |e: JournalEventRowModel|
            {
                &&& e.turn_id == turn_id
                &&& e.event.revision == revision
                &&& {
                    ||| any(self.segments, holds_in_force(e))
                    ||| any(self.segments, holds(e)) && about_tool(e.event.kind) && any(
                        self.events,
                        result_for(e),
                    )
                }
            }
    }

    pub open spec fn exchanges(self, turn_id: Seq<char>) -> Seq<QuestionExchangeModel> {
        order_by(self.questions.filter(question_of(turn_id)), by_exchange()).map_values(
            as_exchange(),
        )
    }

    pub open spec fn turn_uploads(self, turn_id: Seq<char>) -> Seq<UserAttachmentModel> {
        order_by(self.attachments.filter(upload_of_turn(turn_id)), by_upload()).map_values(
            upload(),
        )
    }

    pub open spec fn shown_events(self, turn_id: Seq<char>, revision: i64) -> Seq<
        TurnJournalEventModel,
    > {
        order_by(self.events.filter(self.shown_event(turn_id, revision)), by_event_id()).map_values(
            as_event(),
        )
    }

    /// A turn with everything that hangs off it.
    pub open spec fn full_turn(self) -> spec_fn(TurnRowModel) -> TurnModel {
        |r: TurnRowModel|
            TurnModel {
                question_exchanges: self.exchanges(r.turn_id),
                followups: self.consumed(r.turn_id).map_values(self.as_followup()),
                attachments: self.turn_uploads(r.turn_id),
                journal_events: if TurnStatus::of(r.status) == TurnStatus::Completed {
                    Seq::empty()
                } else {
                    self.shown_events(r.turn_id, r.revision)
                },
                ..bare_turn()(r)
            }
    }

    /// The turns that satisfy `p`, oldest first.
    pub open spec fn turns_where(self, p: spec_fn(TurnRowModel) -> bool) -> Seq<TurnModel> {
        order_by(self.turns.filter(p), by_seq()).map_values(self.full_turn())
    }

    pub open spec fn last_summary(self, session_id: Seq<char>) -> Option<TurnModel> {
        match last_of(order_by(self.turns.filter(visible_summary(session_id)), by_seq())) {
            Some(row) => Some(bare_turn()(row)),
            None => None,
        }
    }

    pub open spec fn oldest_evictable(self, session_id: Seq<char>, n: nat) -> Seq<TurnModel> {
        limited(
            order_by(self.turns.filter(evictable_turn(session_id)), by_seq()),
            n,
        ).map_values(self.full_turn())
    }

    pub open spec fn running_summaries(self, p: spec_fn(TurnRowModel) -> bool) -> Seq<Seq<char>> {
        order_by(self.turns.filter(p), by_seq()).map_values(user_content_of())
    }

    pub open spec fn background_report_replies_after(
        self,
        session_id: Seq<char>,
        after: i64,
    ) -> Seq<(i64, Seq<char>, Seq<char>, Seq<char>)> {
        limited(
            order_by(self.turns.filter(wake_turn_after(session_id, after)), by_seq()),
            8,
        ).map_values(wake_reply())
    }

    pub open spec fn latest_turn_seq(self, session_id: Seq<char>) -> i64 {
        largest_seq(self.turns.filter(turn_of(session_id)))
    }

    /// The running turn of a session, the queue that it takes from, and the
    /// process that runs it.
    pub open spec fn running_turn_queue_target(self, session_id: Seq<char>) -> Option<
        (Seq<char>, Option<Seq<char>>, Option<u32>),
    > {
        match last_of(order_by(self.turns.filter(running_in(session_id)), by_seq())) {
            None => None,
            Some(turn) => {
                let queue = match turn.queue_session_id {
                    Some(queue) => Some(queue),
                    None => match last_of(
                        order_by(
                            self.queued_prompts.filter(queued_by(turn.owner_pid)),
                            by_prompt_seq(),
                        ),
                    ) {
                        Some(prompt) => prompt.queue_session_id,
                        None => None,
                    },
                };
                let owner = match turn.owner_pid {
                    Some(pid) => if 0 <= pid <= u32::MAX {
                        Some(pid as u32)
                    } else {
                        None
                    },
                    None => None,
                };
                Some((turn.turn_id, queue, owner))
            },
        }
    }
}

/// Whether `text` starts with `prefix` up to the case of ASCII letters.
pub fn starts_but_case(text: &str, prefix: &str) -> (yes: bool)
    ensures
        yes == starts_folded(text@, prefix@),
{
    let x = chars_of(text);
    let y = chars_of(prefix);
    if x.len() < y.len() {
        return false;
    }
    let mut i: usize = 0;
    while i < y.len()
        invariant
            i <= y.len() <= x.len(),
            x@ == text@,
            y@ == prefix@,
            forall|j: int| 0 <= j < i ==> folded(x@[j]) == folded(#[trigger] y@[j]),
        decreases y.len() - i,
    {
        if fold(x[i]) != fold(y[i]) {
            assert(folded(text@[i as int]) != folded(prefix@[i as int]));
            return false;
        }
        i += 1;
    }
    true
}

fn has_more_than_spaces(text: &str) -> (yes: bool)
    ensures
        yes == beyond_spaces(text@),
{
    let x = chars_of(text);
    let mut i: usize = 0;
    while i < x.len()
        invariant
            i <= x.len(),
            x@ == text@,
            forall|j: int| 0 <= j < i ==> #[trigger] x@[j] == ' ',
        decreases x.len() - i,
    {
        if x[i] == '\0' {
            assert(text@[i as int] == '\0');
            return false;
        }
        if x[i] != ' ' {
            assert(text@[i as int] != ' ');
            return true;
        }
        i += 1;
    }
    false
}

fn tally_of(n: i64) -> (t: u64)
    ensures
        t == tally(n),
{
    if n < 0 {
        0
    } else {
        n as u64
    }
}

fn bare(r: &TurnRow) -> (turn: Turn)
    ensures
        turn.deep_view() == bare_turn()(r.deep_view()),
{
    let turn = Turn {
        turn_id: r.turn_id.clone(),
        seq: r.seq,
        user_content: r.user_content.clone(),
        display_content: r.display_content.clone(),
        user_timestamp: r.user_timestamp.clone(),
        assistant_content: r.assistant_content.clone(),
        assistant_reasoning: r.assistant_reasoning.dup(),
        assistant_provider_id: r.assistant_provider_id.dup(),
        assistant_model: r.assistant_model.dup(),
        assistant_timestamp: r.assistant_timestamp.dup(),
        status: TurnStatus::from_str(r.status.as_str()),
        tool_reports: strings_of(r.tool_reports.as_str()),
        tool_flow: r.tool_flow.dup(),
        question_exchanges: Vec::new(),
        followups: Vec::new(),
        attachments: Vec::new(),
        hidden: r.hidden,
        is_summary: r.is_summary,
        owner_pid: r.owner_pid,
        token_total: tally_of(r.token_total),
        token_prompt: tally_of(r.token_prompt),
        token_cache_read: tally_of(r.token_cache_read),
        token_usage_estimated: r.token_usage_estimated,
        revision: r.revision,
        journal_events: Vec::new(),
        context_messages: r.context_messages.dup(),
    };
    assert(turn.question_exchanges.deep_view() =~= Seq::<QuestionExchangeModel>::empty());
    assert(turn.followups.deep_view() =~= Seq::<TurnFollowupModel>::empty());
    assert(turn.attachments.deep_view() =~= Seq::<UserAttachmentModel>::empty());
    assert(turn.journal_events.deep_view() =~= Seq::<TurnJournalEventModel>::empty());
    turn
}

fn is_about_tool(kind: &str) -> (yes: bool)
    ensures
        yes == about_tool(kind@),
{
    same(kind, "tool_call") || same(kind, "tool_result") || same(kind, "tool_progress") || same(
        kind,
        "command_stdout",
    ) || same(kind, "command_stderr") || same(kind, "image") || same(kind, "artifact")
}

fn is_held(e: &JournalEventRow, s: &JournalSegmentRow) -> (b: bool)
    ensures
        b == holds(e.deep_view())(s.deep_view()),
{
    same(s.turn_id.as_str(), e.turn_id.as_str()) && s.revision == e.event.revision
        && s.segment_index == e.event.segment_index
}

fn is_result_for(e: &JournalEventRow, r: &JournalEventRow) -> (b: bool)
    ensures
        b == result_for(e.deep_view())(r.deep_view()),
{
    if !(same(r.turn_id.as_str(), e.turn_id.as_str()) && r.event.revision == e.event.revision
        && r.event.segment_index == e.event.segment_index && same(
        r.event.kind.as_str(),
        "tool_result",
    )) {
        return false;
    }
    match &r.event.call_id {
        Some(call_id) => same_some(&e.event.call_id, call_id.as_str()),
        None => false,
    }
}

impl ConversationDb {
    fn is_shown(&self, e: &JournalEventRow, turn_id: &str, revision: i64) -> (b: bool)
        ensures
            b == self@.shown_event(turn_id@, revision)(e.deep_view()),
    {
        if !same(e.turn_id.as_str(), turn_id) || e.event.revision != revision {
            return false;
        }
        let in_force = |s: &JournalSegmentRow| -> (b: bool)
            ensures
                b == holds_in_force(e.deep_view())(s.deep_view()),
            { is_held(e, s) && !same(s.status.as_str(), "superseded") };
        if exists_row(&self.segments, &in_force, Ghost(holds_in_force(e.deep_view()))) {
            return true;
        }
        let held = |s: &JournalSegmentRow| -> (b: bool)
            ensures
                b == holds(e.deep_view())(s.deep_view()),
            { is_held(e, s) };
        let result = |r: &JournalEventRow| -> (b: bool)
            ensures
                b == result_for(e.deep_view())(r.deep_view()),
            { is_result_for(e, r) };
        exists_row(&self.segments, &held, Ghost(holds(e.deep_view()))) && is_about_tool(
            e.event.kind.as_str(),
        ) && exists_row(&self.events, &result, Ghost(result_for(e.deep_view())))
    }

    fn exchanges(&self, turn_id: &str) -> (list: Vec<QuestionExchange>)
        ensures
            list.deep_view() == self@.exchanges(turn_id@),
    {
        let mine = |r: &QuestionRow| -> (b: bool)
            ensures
                b == question_of(turn_id@)(r.deep_view()),
            { same(r.turn_id.as_str(), turn_id) };
        let rows = select(&self.questions, &mine, Ghost(question_of(turn_id@)));
        let earlier = |a: &QuestionRow, b: &QuestionRow| -> (less: bool)
            ensures
                less == by_exchange()(a.deep_view(), b.deep_view()),
            { a.exchange_index < b.exchange_index };
        let rows = sorted(&rows, &earlier, Ghost(by_exchange()));
        let exchange = |r: &QuestionRow| -> (e: QuestionExchange)
            ensures
                e.deep_view() == as_exchange()(r.deep_view()),
            { QuestionExchange { payload: r.payload.clone() } };
        map_rows(&rows, &exchange, Ghost(as_exchange()))
    }

    fn followup(&self, r: &QueuedPromptRow) -> (f: TurnFollowup)
        ensures
            f.deep_view() == self@.as_followup()(r.deep_view()),
    {
        TurnFollowup {
            prompt_id: r.prompt_id.clone(),
            content: match &r.context_content {
                Some(text) => text.clone(),
                None => r.content.clone(),
            },
            display_content: r.display_content.clone(),
            attachments: r.attachments.dup(),
            uploaded_attachments: self.user_attachments_for_prompt(r.prompt_id.as_str()),
            submitted_at: r.submitted_at.clone(),
            preceding_assistant_content: r.preceding_assistant_content.dup(),
            preceding_assistant_reasoning: r.preceding_assistant_reasoning.dup(),
            preceding_assistant_provider_id: r.preceding_assistant_provider_id.dup(),
            preceding_assistant_model: r.preceding_assistant_model.dup(),
        }
    }

    fn turn_uploads(&self, turn_id: &str) -> (files: Vec<UserAttachment>)
        ensures
            files.deep_view() == self@.turn_uploads(turn_id@),
    {
        let mine = |r: &UserAttachmentRow| -> (b: bool)
            ensures
                b == upload_of_turn(turn_id@)(r.deep_view()),
            { same_some(&r.turn_id, turn_id) };
        let rows = select(&self.attachments, &mine, Ghost(upload_of_turn(turn_id@)));
        sort_uploads(&rows)
    }

    fn shown_events(&self, turn_id: &str, revision: i64) -> (events: Vec<TurnJournalEvent>)
        ensures
            events.deep_view() == self@.shown_events(turn_id@, revision),
    {
        let shown = |e: &JournalEventRow| -> (b: bool)
            ensures
                b == self@.shown_event(turn_id@, revision)(e.deep_view()),
            { self.is_shown(e, turn_id, revision) };
        let rows = select(&self.events, &shown, Ghost(self@.shown_event(turn_id@, revision)));
        let rows = sort_events(&rows);
        let event = |r: &JournalEventRow| -> (e: TurnJournalEvent)
            ensures
                e.deep_view() == as_event()(r.deep_view()),
            { r.event.dup() };
        map_rows(&rows, &event, Ghost(as_event()))
    }

    pub(crate) fn full(&self, r: &TurnRow) -> (turn: Turn)
        ensures
            turn.deep_view() == self@.full_turn()(r.deep_view()),
    {
        let mut turn = bare(r);
        turn.question_exchanges = self.exchanges(r.turn_id.as_str());
        let consumed = self.consumed(r.turn_id.as_str());
        let followup = |p: &QueuedPromptRow| -> (f: TurnFollowup)
            ensures
                f.deep_view() == self@.as_followup()(p.deep_view()),
            { self.followup(p) };
        turn.followups = map_rows(&consumed, &followup, Ghost(self@.as_followup()));
        turn.attachments = self.turn_uploads(r.turn_id.as_str());
        if turn.status != TurnStatus::Completed {
            turn.journal_events = self.shown_events(r.turn_id.as_str(), r.revision);
        }
        turn
    }

    pub(crate) fn full_turns(&self, rows: &Vec<TurnRow>) -> (turns: Vec<Turn>)
        ensures
            turns.deep_view() == rows.deep_view().map_values(self@.full_turn()),
    {
        let full = |r: &TurnRow| -> (t: Turn)
            ensures
                t.deep_view() == self@.full_turn()(r.deep_view()),
            { self.full(r) };
        map_rows(rows, &full, Ghost(self@.full_turn()))
    }

    fn turn_rows<F: Fn(&TurnRow) -> bool>(
        &self,
        test: F,
        Ghost(p): Ghost<spec_fn(TurnRowModel) -> bool>,
    ) -> (rows: Vec<TurnRow>)
        requires
            forall|r: &TurnRow| #[trigger] test.requires((r,)),
            forall|r: &TurnRow, b: bool| #[trigger]
                test.ensures((r,), b) ==> b == p(r.deep_view()),
        ensures
            rows.deep_view() == order_by(self@.turns.filter(p), by_seq()),
    {
        let rows = select(&self.turns, &test, Ghost(p));
        sort_by_seq(&rows)
    }

    /// The turns of a session, oldest first.
    pub fn load_turns(&self, session_id: &str) -> (turns: Vec<Turn>)
        ensures
            turns.deep_view() == self@.turns_where(turn_of(session_id@)),
    {
        let mine = |r: &TurnRow| -> (b: bool)
            ensures
                b == turn_of(session_id@)(r.deep_view()),
            { same(r.session_id.as_str(), session_id) };
        let rows = self.turn_rows(&mine, Ghost(turn_of(session_id@)));
        self.full_turns(&rows)
    }

    /// The turns of a session that a request is made from.
    pub fn load_turns_for_context(&self, session_id: &str) -> (turns: Vec<Turn>)
        ensures
            turns.deep_view() == self@.turns_where(turn_of(session_id@)),
    {
        self.load_turns(session_id)
    }

    /// The turns of a session but one, oldest first.
    pub fn load_turns_excluding(&self, session_id: &str, exclude_turn_id: &str) -> (turns: Vec<
        Turn,
    >)
        ensures
            turns.deep_view() == self@.turns_where(turn_except(session_id@, exclude_turn_id@)),
    {
        let mine = |r: &TurnRow| -> (b: bool)
            ensures
                b == turn_except(session_id@, exclude_turn_id@)(r.deep_view()),
            {
                same(r.session_id.as_str(), session_id) && !same(
                    r.turn_id.as_str(),
                    exclude_turn_id,
                )
            };
        let rows = self.turn_rows(&mine, Ghost(turn_except(session_id@, exclude_turn_id@)));
        self.full_turns(&rows)
    }

    /// The turns and summaries of a session that are in view, oldest first.
    pub fn load_visible_turns(&self, session_id: &str) -> (turns: Vec<Turn>)
        ensures
            turns.deep_view() == self@.turns_where(visible_turn(session_id@)),
    {
        let mine = |r: &TurnRow| -> (b: bool)
            ensures
                b == visible_turn(session_id@)(r.deep_view()),
            { same(r.session_id.as_str(), session_id) && !r.hidden };
        let rows = self.turn_rows(&mine, Ghost(visible_turn(session_id@)));
        self.full_turns(&rows)
    }

    /// The same but one turn.
    pub fn load_visible_turns_excluding(
        &self,
        session_id: &str,
        exclude_turn_id: &str,
    ) -> (turns: Vec<Turn>)
        ensures
            turns.deep_view() == self@.turns_where(
                visible_turn_except(session_id@, exclude_turn_id@),
            ),
    {
        let mine = |r: &TurnRow| -> (b: bool)
            ensures
                b == visible_turn_except(session_id@, exclude_turn_id@)(r.deep_view()),
            {
                same(r.session_id.as_str(), session_id) && !r.hidden && !same(
                    r.turn_id.as_str(),
                    exclude_turn_id,
                )
            };
        let rows = self.turn_rows(
            &mine,
            Ghost(visible_turn_except(session_id@, exclude_turn_id@)),
        );
        self.full_turns(&rows)
    }

    /// The summary that stands for the folded part of a session.
    pub fn load_last_summary(&self, session_id: &str) -> (summary: Option<Turn>)
        ensures
            summary.deep_view() == self@.last_summary(session_id@),
    {
        let mine = |r: &TurnRow| -> (b: bool)
            ensures
                b == visible_summary(session_id@)(r.deep_view()),
            { same(r.session_id.as_str(), session_id) && !r.hidden && r.is_summary };
        let rows = self.turn_rows(&mine, Ghost(visible_summary(session_id@)));
        match last_row(&rows) {
            Some(row) => Some(bare(&row)),
            None => None,
        }
    }

    /// How many turns a session has.
    pub fn count_turns(&self, session_id: &str) -> (n: usize)
        ensures
            n == count(self@.turns, turn_of(session_id@)),
    {
        let mine = |r: &TurnRow| -> (b: bool)
            ensures
                b == turn_of(session_id@)(r.deep_view()),
            { same(r.session_id.as_str(), session_id) };
        count_rows(&self.turns, &mine, Ghost(turn_of(session_id@)))
    }

    /// The `count` oldest turns that may leave the conversation.
    pub fn oldest_evictable_visible_turns(&self, session_id: &str, count: usize) -> (turns: Vec<
        Turn,
    >)
        ensures
            turns.deep_view() == self@.oldest_evictable(session_id@, count as nat),
    {
        let mine = |r: &TurnRow| -> (b: bool)
            ensures
                b == evictable_turn(session_id@)(r.deep_view()),
            {
                same(r.session_id.as_str(), session_id) && !r.hidden && !r.is_summary && !same(
                    r.status.as_str(),
                    "running",
                )
            };
        let rows = self.turn_rows(&mine, Ghost(evictable_turn(session_id@)));
        let rows = limit(&rows, count);
        self.full_turns(&rows)
    }

    /// The turns that report on background jobs after `after_seq`, oldest
    /// first and at most 8: place, turn, prompt as shown, and reply.
    pub fn background_report_replies_after(&self, session_id: &str, after_seq: i64) -> (list: Vec<
        (i64, String, String, String),
    >)
        ensures
            list.deep_view() == self@.background_report_replies_after(session_id@, after_seq),
    {
        let wake = |r: &TurnRow| -> (b: bool)
            ensures
                b == wake_turn_after(session_id@, after_seq)(r.deep_view()),
            {
                same(r.session_id.as_str(), session_id) && r.seq > after_seq && (same(
                    r.status.as_str(),
                    "completed",
                ) || same(r.status.as_str(), "failed") || same(r.status.as_str(), "interrupted"))
                    && starts_but_case(r.user_content.as_str(), "<background-job-report>")
            };
        let rows = self.turn_rows(&wake, Ghost(wake_turn_after(session_id@, after_seq)));
        let rows = limit(&rows, 8);
        let reply = |r: &TurnRow| -> (t: (i64, String, String, String))
            ensures
                t.deep_view() == wake_reply()(r.deep_view()),
            {
                let text = if same(r.status.as_str(), "completed") || has_more_than_spaces(
                    r.assistant_content.as_str(),
                ) {
                    r.assistant_content.clone()
                } else {
                    "（自动跟进未能完成：模型请求失败或被中断，可用 job_status 查看任务输出）".to_owned()
                };
                (r.seq, r.turn_id.clone(), r.display_content.clone(), text)
            };
        map_rows(&rows, &reply, Ghost(wake_reply()))
    }

    /// The largest `seq` of a session's turns, or 0.
    pub fn latest_turn_seq(&self, session_id: &str) -> (seq: i64)
        ensures
            seq == self@.latest_turn_seq(session_id@),
    {
        let mine = |r: &TurnRow| -> (b: bool)
            ensures
                b == turn_of(session_id@)(r.deep_view()),
            { same(r.session_id.as_str(), session_id) };
        let rows = self.turn_rows(&mine, Ghost(turn_of(session_id@)));
        match last_row(&rows) {
            Some(row) => row.seq,
            None => 0,
        }
    }

    pub fn has_running_turns(&self, session_id: &str) -> (yes: bool)
        ensures
            yes == any(self@.turns, running_in(session_id@)),
    {
        let running = |r: &TurnRow| -> (b: bool)
            ensures
                b == running_in(session_id@)(r.deep_view()),
            { same(r.session_id.as_str(), session_id) && same(r.status.as_str(), "running") };
        exists_row(&self.turns, &running, Ghost(running_in(session_id@)))
    }

    pub fn has_any_running_turns(&self) -> (yes: bool)
        ensures
            yes == any(self@.turns, is_running()),
    {
        let running = |r: &TurnRow| -> (b: bool)
            ensures
                b == is_running()(r.deep_view()),
            { same(r.status.as_str(), "running") };
        exists_row(&self.turns, &running, Ghost(is_running()))
    }

    /// The running turn of a session, the queue that it takes from, and the
    /// process that runs it.
    pub fn running_turn_queue_target(&self, session_id: &str) -> (target: Option<
        (String, Option<String>, Option<u32>),
    >)
        ensures
            target.deep_view() == self@.running_turn_queue_target(session_id@),
    {
        let running = |r: &TurnRow| -> (b: bool)
            ensures
                b == running_in(session_id@)(r.deep_view()),
            { same(r.session_id.as_str(), session_id) && same(r.status.as_str(), "running") };
        let rows = self.turn_rows(&running, Ghost(running_in(session_id@)));
        let turn = match last_row(&rows) {
            Some(turn) => turn,
            None => return None,
        };
        let queue = match turn.queue_session_id.dup() {
            Some(queue) => Some(queue),
            None => {
                let owner_pid = turn.owner_pid;
                let owned = |r: &QueuedPromptRow| -> (b: bool)
                    ensures
                        b == queued_by(owner_pid)(r.deep_view()),
                    {
                        match (owner_pid, r.owner_pid) {
                            (Some(a), Some(b)) => a == b && r.queue_session_id.is_some(),
                            _ => false,
                        }
                    };
                let prompts = select(&self.queued_prompts, &owned, Ghost(queued_by(owner_pid)));
                let prompts = crate::state::queue::sort_prompts(&prompts);
                match last_row(&prompts) {
                    Some(prompt) => prompt.queue_session_id,
                    None => None,
                }
            },
        };
        let owner = match turn.owner_pid {
            Some(pid) => if 0 <= pid && pid <= 0xffff_ffff {
                Some(pid as u32)
            } else {
                None
            },
            None => None,
        };
        Some((turn.turn_id, queue, owner))
    }

    /// The prompts of a session's running turns, oldest first.
    pub fn running_turn_summaries(&self, session_id: &str) -> (list: Vec<String>)
        ensures
            list.deep_view() == self@.running_summaries(running_in(session_id@)),
    {
        let running = |r: &TurnRow| -> (b: bool)
            ensures
                b == running_in(session_id@)(r.deep_view()),
            { same(r.session_id.as_str(), session_id) && same(r.status.as_str(), "running") };
        let rows = self.turn_rows(&running, Ghost(running_in(session_id@)));
        user_contents(&rows)
    }

    /// The same but one turn.
    pub fn running_turn_summaries_excluding(
        &self,
        session_id: &str,
        exclude_turn_id: &str,
    ) -> (list: Vec<String>)
        ensures
            list.deep_view() == self@.running_summaries(
                running_in_except(session_id@, exclude_turn_id@),
            ),
    {
        let running = |r: &TurnRow| -> (b: bool)
            ensures
                b == running_in_except(session_id@, exclude_turn_id@)(r.deep_view()),
            {
                same(r.session_id.as_str(), session_id) && same(r.status.as_str(), "running")
                    && !same(r.turn_id.as_str(), exclude_turn_id)
            };
        let rows = self.turn_rows(
            &running,
            Ghost(running_in_except(session_id@, exclude_turn_id@)),
        );
        user_contents(&rows)
    }
}

fn user_contents(rows: &Vec<TurnRow>) -> (list: Vec<String>)
    ensures
        list.deep_view() == rows.deep_view().map_values(user_content_of()),
{
    let content = |r: &TurnRow| -> (s: String)
        ensures
            s.deep_view() == user_content_of()(r.deep_view()),
        { r.user_content.clone() };
    map_rows(rows, &content, Ghost(user_content_of()))
}

} // verus!

