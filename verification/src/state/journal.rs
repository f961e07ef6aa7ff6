//! The journal of a generation: segments, and the events within them.

use crate::state::db::{ConversationDb, DbModel};
use crate::state::error::{StateError, StateErrorKind, StateErrorModel};
use crate::state::rows::{
    JournalEventRow, JournalEventRowModel, JournalSegmentRow, JournalSegmentRowModel,
};
use crate::state::types::{TurnJournalEvent, TurnJournalEventModel};
use crate::table::{
    any, append, change_where, exists_row, last_of, last_row, order_by, select, sorted, update, Row,
};
use crate::text::{is_blank, same, sat_add, trimmed};
use vstd::prelude::*;

verus! {

/// What stands for the reply of a turn that was interrupted.
pub const INTERRUPTED_TEXT: &'static str =
    "<system-reminder>上一轮prompt已被中断，除非用户重新要求否则不要处理上一轮的prompt</system-reminder>";

/// What stands for the reply of a turn that is still running.
pub const PENDING_PLACEHOLDER: &'static str =
    "<system-reminder>上一轮prompt正在由另一轮回复处理中，你只需要回应用户当前的prompt，不要处理上一轮的prompt</system-reminder>";

pub fn pending_placeholder() -> (text: &'static str)
    ensures
        text@ == PENDING_PLACEHOLDER@,
        text@.len() > 0,
{
    proof {
        reveal_strlit(
            "<system-reminder>上一轮prompt正在由另一轮回复处理中，你只需要回应用户当前的prompt，不要处理上一轮的prompt</system-reminder>",
        );
    }
    PENDING_PLACEHOLDER
}

pub fn interrupted_text() -> (text: &'static str)
    ensures
        text@ == INTERRUPTED_TEXT@,
        text@.len() > 0,
{
    proof {
        reveal_strlit(
            "<system-reminder>上一轮prompt已被中断，除非用户重新要求否则不要处理上一轮的prompt</system-reminder>",
        );
    }
    INTERRUPTED_TEXT
}

pub open spec fn segment_of(turn_id: Seq<char>, revision: i64) -> spec_fn(
    JournalSegmentRowModel,
) -> bool {
    |r: JournalSegmentRowModel| r.turn_id == turn_id && r.revision == revision
}

pub open spec fn open_segment_of(turn_id: Seq<char>, revision: i64) -> spec_fn(
    JournalSegmentRowModel,
) -> bool {
    |r: JournalSegmentRowModel| segment_of(turn_id, revision)(r) && r.status != "superseded"@
}

pub open spec fn segment_at(turn_id: Seq<char>, revision: i64, index: i64) -> spec_fn(
    JournalSegmentRowModel,
) -> bool {
    |r: JournalSegmentRowModel| segment_of(turn_id, revision)(r) && r.segment_index == index
}

pub open spec fn by_index() -> spec_fn(JournalSegmentRowModel, JournalSegmentRowModel) -> bool {
    |a: JournalSegmentRowModel, b: JournalSegmentRowModel| a.segment_index < b.segment_index
}

pub open spec fn event_at(turn_id: Seq<char>, revision: i64, index: i64) -> spec_fn(
    JournalEventRowModel,
) -> bool {
    |r: JournalEventRowModel|
        r.turn_id == turn_id && r.event.revision == revision && r.event.segment_index == index
}

pub open spec fn by_event_id() -> spec_fn(JournalEventRowModel, JournalEventRowModel) -> bool {
    |a: JournalEventRowModel, b: JournalEventRowModel| a.event.event_id < b.event.event_id
}

pub open spec fn new_segment(
    turn_id: Seq<char>,
    revision: i64,
    segment_index: i64,
    now: Seq<char>,
) -> JournalSegmentRowModel {
    JournalSegmentRowModel {
        turn_id,
        revision,
        segment_index,
        status: "running"@,
        started_at: now,
        finished_at: None,
    }
}

pub open spec fn new_event(
    event_id: i64,
    turn_id: Seq<char>,
    revision: i64,
    segment_index: i64,
    kind: Seq<char>,
    text: Seq<char>,
    now: Seq<char>,
) -> JournalEventRowModel {
    JournalEventRowModel {
        turn_id,
        event: TurnJournalEventModel {
            event_id,
            revision,
            segment_index,
            kind,
            call_id: None,
            name: None,
            text_payload: Some(text),
            blob_payload: None,
            ok: None,
        },
        created_at: now,
    }
}

pub open spec fn closed(status: Seq<char>, now: Seq<char>) -> spec_fn(
    JournalSegmentRowModel,
) -> JournalSegmentRowModel {
    |r: JournalSegmentRowModel|
        JournalSegmentRowModel { status, finished_at: Some(now), ..r }
}

/// The largest id among the events, or 0.
pub open spec fn largest_event_id(events: Seq<JournalEventRowModel>) -> i64
    decreases events.len(),
{
    if events.len() == 0 {
        0
    } else {
        let rest = largest_event_id(events.drop_last());
        let id = events.last().event.event_id;
        if id > rest {
            id
        } else {
            rest
        }
    }
}

/// The prose of events in their order.
pub open spec fn content_of(events: Seq<JournalEventRowModel>) -> Seq<char>
    decreases events.len(),
{
    if events.len() == 0 {
        Seq::empty()
    } else {
        let rest = content_of(events.drop_last());
        let event = events.last().event;
        match event.text_payload {
            Some(text) => if event.kind == "assistant_content"@ {
                rest + text
            } else {
                rest
            },
            None => rest,
        }
    }
}

/// The reasoning of events in their order, from the last reset on.
pub open spec fn reasoning_of(events: Seq<JournalEventRowModel>) -> Seq<char>
    decreases events.len(),
{
    if events.len() == 0 {
        Seq::empty()
    } else {
        let rest = reasoning_of(events.drop_last());
        let event = events.last().event;
        if event.kind == "reasoning_reset"@ {
            Seq::empty()
        } else {
            match event.text_payload {
                Some(text) => if event.kind == "assistant_reasoning"@ {
                    rest + text
                } else {
                    rest
                },
                None => rest,
            }
        }
    }
}

/// A text, unless it is blank.
pub open spec fn unless_blank(text: Seq<char>) -> Option<Seq<char>> {
    if trimmed(text).len() == 0 {
        None
    } else {
        Some(text)
    }
}

/// What is kept of a reply that was cut off.
pub open spec fn interrupted_content(content: Seq<char>) -> Seq<char> {
    if trimmed(content).len() == 0 {
        INTERRUPTED_TEXT@
    } else {
        content + "\n\n"@ + INTERRUPTED_TEXT@
    }
}

/// Whether `s` ends in `suffix`.
pub open spec fn ends_in(s: Seq<char>, suffix: Seq<char>) -> bool {
    s.len() >= suffix.len() && s.skip(s.len() - suffix.len()) == suffix
}

/// A reply that was cut off, as far as it had come.
pub open spec fn uninterrupted(content: Seq<char>) -> Seq<char> {
    let suffix = "\n\n"@ + INTERRUPTED_TEXT@;
    if ends_in(content, suffix) {
        content.take(content.len() - suffix.len())
    } else if ends_in(content, INTERRUPTED_TEXT@) {
        content.take(content.len() - INTERRUPTED_TEXT@.len())
    } else {
        content
    }
}

impl DbModel {
    /// What a segment has produced: the prose, and the reasoning if any.
    pub open spec fn segment_projection(self, turn_id: Seq<char>, revision: i64, index: i64) -> (
        Seq<char>,
        Option<Seq<char>>,
    ) {
        let events = order_by(
            self.events.filter(event_at(turn_id, revision, index)),
            by_event_id(),
        );
        (content_of(events), unless_blank(reasoning_of(events)))
    }

    /// What stays of a generation that is cut off here.
    pub open spec fn interrupted_projection(self, turn_id: Seq<char>, revision: i64) -> (
        Seq<char>,
        Option<Seq<char>>,
    ) {
        match last_of(
            order_by(self.segments.filter(open_segment_of(turn_id, revision)), by_index()),
        ) {
            None => (INTERRUPTED_TEXT@, None),
            Some(segment) => {
                let (content, reasoning) = self.segment_projection(
                    turn_id,
                    revision,
                    segment.segment_index,
                );
                (interrupted_content(content), reasoning)
            },
        }
    }

    /// The segment that a generation is in.
    pub open spec fn current_segment(self, turn_id: Seq<char>, revision: i64) -> Option<
        JournalSegmentRowModel,
    > {
        last_of(order_by(self.segments.filter(segment_of(turn_id, revision)), by_index()))
    }

    /// The store with a journal begun for a generation that has none.
    pub open spec fn journal_begun(self, turn_id: Seq<char>, revision: i64, now: Seq<char>) -> DbModel {
        if any(self.segments, segment_at(turn_id, revision, 0)) {
            self
        } else {
            DbModel {
                segments: self.segments.push(new_segment(turn_id, revision, 0, now)),
                ..self
            }
        }
    }

    /// The store after a generation took up prompts: the event is noted, the
    /// segment closed where `close` says so of its status, and the next one
    /// opened. The event of a superseded segment goes into the next.
    pub open spec fn prompts_taken_up(
        self,
        turn_id: Seq<char>,
        revision: i64,
        prompt_ids_json: Seq<char>,
        close: spec_fn(Seq<char>) -> bool,
        now: Seq<char>,
    ) -> Result<DbModel, StateErrorModel> {
        match self.current_segment(turn_id, revision) {
            None => Err(StateErrorModel::about(StateErrorKind::MissingRow, turn_id)),
            Some(segment) => {
                let next = sat_add(segment.segment_index, 1);
                let superseded = segment.status == "superseded"@;
                let event_index = if superseded {
                    next
                } else {
                    segment.segment_index
                };
                if any(self.segments, segment_at(turn_id, revision, next)) {
                    Err(StateErrorModel::about(StateErrorKind::UniqueViolation, turn_id))
                } else if largest_event_id(self.events) == i64::MAX {
                    Err(StateErrorModel::plain(StateErrorKind::OutOfRange))
                } else {
                    let kept = if !superseded && close(segment.status) {
                        change_where(
                            self.segments,
                            segment_at(turn_id, revision, segment.segment_index),
                            closed("completed"@, now),
                        )
                    } else {
                        self.segments
                    };
                    Ok(
                        DbModel {
                            segments: kept.push(new_segment(turn_id, revision, next, now)),
                            events: self.events.push(
                                new_event(
                                    (largest_event_id(self.events) + 1) as i64,
                                    turn_id,
                                    revision,
                                    event_index,
                                    "queued_prompts_consumed"@,
                                    prompt_ids_json,
                                    now,
                                ),
                            ),
                            ..self
                        },
                    )
                }
            },
        }
    }
}

/// A segment is closed only while it runs.
pub open spec fn close_running() -> spec_fn(Seq<char>) -> bool {
    |status: Seq<char>| status == "running"@
}

/// A segment is closed whatever its status.
pub open spec fn close_any() -> spec_fn(Seq<char>) -> bool {
    |status: Seq<char>| true
}

/// The largest id among the events, or 0.
pub(crate) fn max_event_id(events: &Vec<JournalEventRow>) -> (id: i64)
    ensures
        id == largest_event_id(events.deep_view()),
{
    let mut id: i64 = 0;
    let mut i: usize = 0;
    while i < events.len()
        invariant
            i <= events.len(),
            id == largest_event_id(events.deep_view().take(i as int)),
        decreases events.len() - i,
    {
        let ghost all = events.deep_view();
        assert(all.take(i + 1).drop_last() =~= all.take(i as int));
        assert(all.take(i + 1).last() == events[i as int].deep_view());
        if events[i].event.event_id > id {
            id = events[i].event.event_id;
        }
        i += 1;
    }
    assert(events.deep_view().take(i as int) =~= events.deep_view());
    id
}

/// A reply that was cut off, as far as it had come.
pub fn interrupted_prefix(content: &str) -> (prefix: String)
    ensures
        prefix@ == uninterrupted(content@),
{
    let suffix = "\n\n".to_owned().concat(INTERRUPTED_TEXT);
    if let Some(prefix) = strip_suffix(content, suffix.as_str()) {
        return prefix;
    }
    match strip_suffix(content, INTERRUPTED_TEXT) {
        Some(prefix) => prefix,
        None => content.to_owned(),
    }
}

/// `text` without `suffix`, if it ends in it.
pub fn strip_suffix(text: &str, suffix: &str) -> (prefix: Option<String>)
    ensures
        prefix.deep_view() == if ends_in(text@, suffix@) {
            Some(text@.take(text@.len() - suffix@.len()))
        } else {
            None
        },
{
    let n: usize = text.unicode_len();
    let m: usize = suffix.unicode_len();
    if n < m {
        return None;
    }
    let cut: usize = n - m;
    let tail = text.substring_char(cut, n);
    assert(tail@ =~= text@.skip(cut as int));
    if same(tail, suffix) {
        let head = text.substring_char(0, cut);
        assert(head@ =~= text@.take(cut as int));
        Some(head.to_owned())
    } else {
        None
    }
}

pub(crate) fn segment_row(turn_id: &str, revision: i64, segment_index: i64, now: &str) -> (row:
    JournalSegmentRow)
    ensures
        row.deep_view() == new_segment(turn_id@, revision, segment_index, now@),
{
    JournalSegmentRow {
        turn_id: turn_id.to_owned(),
        revision,
        segment_index,
        status: "running".to_owned(),
        started_at: now.to_owned(),
        finished_at: None,
    }
}

pub(crate) fn event_row(
    event_id: i64,
    turn_id: &str,
    revision: i64,
    segment_index: i64,
    kind: &str,
    text: &str,
    now: &str,
) -> (row: JournalEventRow)
    ensures
        row.deep_view() == new_event(
            event_id,
            turn_id@,
            revision,
            segment_index,
            kind@,
            text@,
            now@,
        ),
{
    JournalEventRow {
        turn_id: turn_id.to_owned(),
        event: TurnJournalEvent {
            event_id,
            revision,
            segment_index,
            kind: kind.to_owned(),
            call_id: None,
            name: None,
            text_payload: Some(text.to_owned()),
            blob_payload: None,
            ok: None,
        },
        created_at: now.to_owned(),
    }
}

fn sort_segments(rows: &Vec<JournalSegmentRow>) -> (out: Vec<JournalSegmentRow>)
    ensures
        out.deep_view() == order_by(rows.deep_view(), by_index()),
{
    let earlier = |a: &JournalSegmentRow, b: &JournalSegmentRow| -> (less: bool)
        ensures
            less == by_index()(a.deep_view(), b.deep_view()),
        { a.segment_index < b.segment_index };
    sorted(rows, &earlier, Ghost(by_index()))
}

fn is_segment_of(r: &JournalSegmentRow, turn_id: &str, revision: i64) -> (b: bool)
    ensures
        b == segment_of(turn_id@, revision)(r.deep_view()),
{
    same(r.turn_id.as_str(), turn_id) && r.revision == revision
}

/// Events in the order of their ids.
pub(crate) fn sort_events(rows: &Vec<JournalEventRow>) -> (out: Vec<JournalEventRow>)
    ensures
        out.deep_view() == order_by(rows.deep_view(), by_event_id()),
{
    let earlier = |a: &JournalEventRow, b: &JournalEventRow| -> (less: bool)
        ensures
            less == by_event_id()(a.deep_view(), b.deep_view()),
        { a.event.event_id < b.event.event_id };
    sorted(rows, &earlier, Ghost(by_event_id()))
}

impl ConversationDb {
    pub(crate) fn journal_segment_projection(
        &self,
        turn_id: &str,
        revision: i64,
        segment_index: i64,
    ) -> (projection: (String, Option<String>))
        ensures
            projection.deep_view() == self@.segment_projection(turn_id@, revision, segment_index),
    {
        let here = |r: &JournalEventRow| -> (b: bool)
            ensures
                b == event_at(turn_id@, revision, segment_index)(r.deep_view()),
            {
                same(r.turn_id.as_str(), turn_id) && r.event.revision == revision
                    && r.event.segment_index == segment_index
            };
        let rows = select(
            &self.events,
            &here,
            Ghost(event_at(turn_id@, revision, segment_index)),
        );
        let events = sort_events(&rows);
        let mut content = String::new();
        let mut reasoning = String::new();
        let mut i: usize = 0;
        while i < events.len()
            invariant
                i <= events.len(),
                content@ == content_of(events.deep_view().take(i as int)),
                reasoning@ == reasoning_of(events.deep_view().take(i as int)),
            decreases events.len() - i,
        {
            let ghost all = events.deep_view();
            assert(all.take(i + 1).drop_last() =~= all.take(i as int));
            assert(all.take(i + 1).last() == events[i as int].deep_view());
            proof {
                reveal_strlit("assistant_content");
                reveal_strlit("assistant_reasoning");
                reveal_strlit("reasoning_reset");
                assert("assistant_content"@.len() != "assistant_reasoning"@.len());
                assert("assistant_content"@.len() != "reasoning_reset"@.len());
                assert("assistant_reasoning"@.len() != "reasoning_reset"@.len());
            }
            let event = &events[i].event;
            if same(event.kind.as_str(), "assistant_content") {
                if let Some(text) = &event.text_payload {
                    content.append(text.as_str());
                }
            } else if same(event.kind.as_str(), "assistant_reasoning") {
                if let Some(text) = &event.text_payload {
                    reasoning.append(text.as_str());
                }
            } else if same(event.kind.as_str(), "reasoning_reset") {
                reasoning = String::new();
            }
            i += 1;
        }
        assert(events.deep_view().take(i as int) =~= events.deep_view());
        let reasoning = if is_blank(reasoning.as_str()) {
            None
        } else {
            Some(reasoning)
        };
        (content, reasoning)
    }

    pub(crate) fn interrupted_projection(&self, turn_id: &str, revision: i64) -> (projection: (
        String,
        Option<String>,
    ))
        ensures
            projection.deep_view() == self@.interrupted_projection(turn_id@, revision),
    {
        let here = |r: &JournalSegmentRow| -> (b: bool)
            ensures
                b == open_segment_of(turn_id@, revision)(r.deep_view()),
            { is_segment_of(r, turn_id, revision) && !same(r.status.as_str(), "superseded") };
        let rows = select(&self.segments, &here, Ghost(open_segment_of(turn_id@, revision)));
        let rows = sort_segments(&rows);
        match last_row(&rows) {
            None => (INTERRUPTED_TEXT.to_owned(), None),
            Some(segment) => {
                let (content, reasoning) = self.journal_segment_projection(
                    turn_id,
                    revision,
                    segment.segment_index,
                );
                let content = if is_blank(content.as_str()) {
                    INTERRUPTED_TEXT.to_owned()
                } else {
                    content.concat("\n\n").concat(INTERRUPTED_TEXT)
                };
                (content, reasoning)
            },
        }
    }

    pub(crate) fn current_segment(&self, turn_id: &str, revision: i64) -> (segment: Option<
        JournalSegmentRow,
    >)
        ensures
            segment.deep_view() == self@.current_segment(turn_id@, revision),
    {
        let here = |r: &JournalSegmentRow| -> (b: bool)
            ensures
                b == segment_of(turn_id@, revision)(r.deep_view()),
            { is_segment_of(r, turn_id, revision) };
        let rows = select(&self.segments, &here, Ghost(segment_of(turn_id@, revision)));
        let rows = sort_segments(&rows);
        last_row(&rows)
    }

    pub(crate) fn has_segment(&self, turn_id: &str, revision: i64, index: i64) -> (found: bool)
        ensures
            found == any(self@.segments, segment_at(turn_id@, revision, index)),
    {
        let here = |r: &JournalSegmentRow| -> (b: bool)
            ensures
                b == segment_at(turn_id@, revision, index)(r.deep_view()),
            { is_segment_of(r, turn_id, revision) && r.segment_index == index };
        exists_row(&self.segments, &here, Ghost(segment_at(turn_id@, revision, index)))
    }

    pub(crate) fn begin_journal(&mut self, turn_id: &str, revision: i64, now: &str)
        ensures
            final(self)@ == old(self)@.journal_begun(turn_id@, revision, now@),
    {
        if !self.has_segment(turn_id, revision, 0) {
            append(&mut self.segments, segment_row(turn_id, revision, 0, now));
        }
    }

    fn close_segment(&mut self, turn_id: &str, revision: i64, index: i64, now: &str)
        ensures
            final(self)@ == (DbModel {
                segments: change_where(
                    old(self)@.segments,
                    segment_at(turn_id@, revision, index),
                    closed("completed"@, now@),
                ),
                ..old(self)@
            }),
    {
        let here = |r: &JournalSegmentRow| -> (b: bool)
            ensures
                b == segment_at(turn_id@, revision, index)(r.deep_view()),
            { is_segment_of(r, turn_id, revision) && r.segment_index == index };
        let close = |r: &JournalSegmentRow| -> (n: JournalSegmentRow)
            ensures
                n.deep_view() == closed("completed"@, now@)(r.deep_view()),
            {
                let mut n = r.dup();
                n.status = "completed".to_owned();
                n.finished_at = Some(now.to_owned());
                n
            };
        self.segments = update(
            &self.segments,
            &here,
            &close,
            Ghost(segment_at(turn_id@, revision, index)),
            Ghost(closed("completed"@, now@)),
        );
    }

    /// Notes that a generation took up prompts. Only a running segment is
    /// closed, unless `always` says otherwise.
    pub(crate) fn take_up_prompts(
        &mut self,
        turn_id: &str,
        revision: i64,
        prompt_ids_json: &str,
        always: bool,
        now: &str,
    ) -> (result: Result<(), StateError>)
        ensures
            match old(self)@.prompts_taken_up(
                turn_id@,
                revision,
                prompt_ids_json@,
                if always {
                    close_any()
                } else {
                    close_running()
                },
                now@,
            ) {
                Ok(db) => result is Ok && final(self)@ == db,
                Err(error) => {
                    &&& result matches Err(got)
                    &&& got@ == error
                    &&& final(self)@ == old(self)@
                },
            },
    {
        let segment = match self.current_segment(turn_id, revision) {
            Some(segment) => segment,
            None => return Err(StateError::about(StateErrorKind::MissingRow, turn_id)),
        };
        let next: i64 = if segment.segment_index == i64::MAX {
            i64::MAX
        } else {
            segment.segment_index + 1
        };
        if self.has_segment(turn_id, revision, next) {
            return Err(StateError::about(StateErrorKind::UniqueViolation, turn_id));
        }
        let last_event: i64 = max_event_id(&self.events);
        if last_event == i64::MAX {
            return Err(StateError::plain(StateErrorKind::OutOfRange));
        }
        let superseded = same(segment.status.as_str(), "superseded");
        let event_index: i64 = if superseded {
            next
        } else {
            segment.segment_index
        };
        if !superseded && (always || same(segment.status.as_str(), "running")) {
            self.close_segment(turn_id, revision, segment.segment_index, now);
        }
        append(&mut self.segments, segment_row(turn_id, revision, next, now));
        append(
            &mut self.events,
            event_row(
                last_event + 1,
                turn_id,
                revision,
                event_index,
                "queued_prompts_consumed",
                prompt_ids_json,
                now,
            ),
        );
        Ok(())
    }
}

} // verus!

