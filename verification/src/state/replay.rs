//! The display transcript of a finished turn.

use crate::json::{encode_text, json_text};
use crate::state::compact::completed_plain;
use crate::state::db::{ConversationDb, DbModel};
use crate::state::journal::{by_event_id, sort_events};
use crate::state::redo::with_turn_id;
use crate::state::rows::{JournalEventRow, JournalEventRowModel, TurnRow, TurnRowModel};
use crate::state::sessions::{by_seq, sort_by_seq};
use crate::state::turns::{is_job_wake, starts_but_case};
use crate::state::types::{ReplayEntry, ReplayEntryModel, TurnReplay, TurnReplayModel};
use crate::table::{
    append, change_where, lemma_filter_holds, lemma_order_holds, map_rows, order_by, select, update,
    Row,
};
use crate::text::{byte_len, is_blank, join, joined, same, trimmed};
use vstd::prelude::*;

verus! {

/// How long a transcript may be, in bytes of JSON.
pub const REPLAY_JOURNAL_MAX_CHARS: usize = 8192;

/// How long one entry may be, so that a runaway tool result cannot take up the
/// whole transcript.
pub const REPLAY_ENTRY_MAX_CHARS: usize = 2048;

/// A text cut to `max` characters, with an ellipsis where something is missing.
pub open spec fn truncated(s: Seq<char>, max: nat) -> Seq<char> {
    if s.len() <= max {
        s
    } else {
        s.take(max as int) + "…"@
    }
}

/// An event that belongs in the transcript of a turn.
pub open spec fn told(turn_id: Seq<char>) -> spec_fn(JournalEventRowModel) -> bool {
    |r: JournalEventRowModel|
        {
            &&& r.turn_id == turn_id
            &&& {
                ||| r.event.kind == "assistant_content"@
                ||| r.event.kind == "tool_call"@
                ||| r.event.kind == "tool_result"@
            }
        }
}

/// A transcript that is being put together: what is done, the names of the
/// calls so far, and the prose since the last entry.
#[verifier::ext_equal]
pub struct Telling {
    pub entries: Seq<ReplayEntryModel>,
    pub names: Seq<(Seq<char>, Seq<char>)>,
    pub text: Seq<char>,
}

/// The name that a call was last given.
pub open spec fn called(names: Seq<(Seq<char>, Seq<char>)>, id: Seq<char>) -> Option<Seq<char>>
    decreases names.len(),
{
    if names.len() == 0 {
        None
    } else if names.last().0 == id {
        Some(names.last().1)
    } else {
        called(names.drop_last(), id)
    }
}

pub open spec fn or_empty(text: Option<Seq<char>>) -> Seq<char> {
    match text {
        Some(text) => text,
        None => Seq::empty(),
    }
}

impl Telling {
    pub open spec fn start() -> Telling {
        Telling { entries: Seq::empty(), names: Seq::empty(), text: Seq::empty() }
    }

    /// With the prose so far as an entry of its own, unless it is blank.
    pub open spec fn flushed(self) -> Telling {
        Telling {
            entries: if trimmed(self.text).len() == 0 {
                self.entries
            } else {
                self.entries.push(
                    ReplayEntryModel::Text {
                        text: truncated(self.text, REPLAY_ENTRY_MAX_CHARS as nat),
                    },
                )
            },
            text: Seq::empty(),
            ..self
        }
    }

    pub open spec fn step(self, r: JournalEventRowModel) -> Telling {
        let payload = or_empty(r.event.text_payload);
        if r.event.kind == "assistant_content"@ {
            Telling { text: self.text + payload, ..self }
        } else if r.event.kind == "tool_call"@ {
            let done = self.flushed();
            match r.event.name {
                None => done,
                Some(name) => Telling {
                    names: match r.event.call_id {
                        Some(id) => done.names.push((id, name)),
                        None => done.names,
                    },
                    entries: done.entries.push(
                        ReplayEntryModel::ToolCall {
                            name,
                            arguments: truncated(payload, REPLAY_ENTRY_MAX_CHARS as nat),
                        },
                    ),
                    ..done
                },
            }
        } else {
            let done = self.flushed();
            let known = match r.event.call_id {
                Some(id) => called(done.names, id),
                None => None,
            };
            let name = match known {
                Some(name) => name,
                None => or_empty(r.event.name),
            };
            if name.len() == 0 {
                done
            } else {
                Telling {
                    entries: done.entries.push(
                        ReplayEntryModel::ToolResult {
                            name,
                            ok: match r.event.ok {
                                Some(ok) => ok,
                                None => true,
                            },
                            output: truncated(payload, REPLAY_ENTRY_MAX_CHARS as nat),
                        },
                    ),
                    ..done
                }
            }
        }
    }
}

/// What is told by events in their order.
pub open spec fn telling(events: Seq<JournalEventRowModel>) -> Telling
    decreases events.len(),
{
    if events.len() == 0 {
        Telling::start()
    } else {
        telling(events.drop_last()).step(events.last())
    }
}

/// The JSON form of a transcript entry.
pub open spec fn entry_json() -> spec_fn(ReplayEntryModel) -> Seq<char> {
    |e: ReplayEntryModel|
        match e {
            ReplayEntryModel::Text { text } => "{\"kind\":\"text\",\"text\":"@ + json_text(text)
                + "}"@,
            ReplayEntryModel::ToolCall { name, arguments } => {
                "{\"kind\":\"tool_call\",\"name\":"@ + json_text(name) + ",\"arguments\":"@
                    + json_text(arguments) + "}"@
            },
            ReplayEntryModel::ToolResult { name, ok, output } => {
                "{\"kind\":\"tool_result\",\"name\":"@ + json_text(name) + ",\"ok\":"@ + (if ok {
                    "true"@
                } else {
                    "false"@
                }) + ",\"output\":"@ + json_text(output) + "}"@
            },
        }
}

/// The JSON form of a transcript.
pub open spec fn replay_json(entries: Seq<ReplayEntryModel>) -> Seq<char> {
    "["@ + joined(entries.map_values(entry_json()), ","@) + "]"@
}

/// A transcript without its oldest entries, as many as must go for it to be
/// short enough; the last entry always stays.
pub open spec fn within_budget(entries: Seq<ReplayEntryModel>) -> Seq<ReplayEntryModel>
    decreases entries.len(),
{
    if entries.len() > 1 && byte_len(replay_json(entries)) > REPLAY_JOURNAL_MAX_CHARS {
        within_budget(entries.drop_first())
    } else {
        entries
    }
}

pub open spec fn with_replay(entries: Seq<ReplayEntryModel>) -> spec_fn(
    TurnRowModel,
) -> TurnRowModel {
    |r: TurnRowModel| TurnRowModel { replay_journal: Some(entries), ..r }
}

/// The last `n` items of a sequence.
pub open spec fn last_n<V>(s: Seq<V>, n: nat) -> Seq<V> {
    if s.len() <= n {
        s
    } else {
        s.skip(s.len() - n)
    }
}

pub open spec fn as_replay() -> spec_fn(TurnRowModel) -> TurnReplayModel {
    |r: TurnRowModel|
        TurnReplayModel {
            display_content: r.display_content,
            assistant_content: r.assistant_content,
            entries: match r.replay_journal {
                Some(entries) => entries,
                None => Seq::empty(),
            },
            is_job_wake: is_job_wake(r.user_content),
        }
}

impl DbModel {
    /// What there is to tell of a turn.
    pub open spec fn transcript(self, turn_id: Seq<char>) -> Seq<ReplayEntryModel> {
        telling(
            order_by(self.events.filter(told(turn_id)), by_event_id()),
        ).flushed().entries
    }

    pub open spec fn store_replay_journal(self, turn_id: Seq<char>) -> DbModel {
        let entries = self.transcript(turn_id);
        if entries.len() == 0 {
            self
        } else {
            DbModel {
                turns: change_where(
                    self.turns,
                    with_turn_id(turn_id),
                    with_replay(within_budget(entries)),
                ),
                ..self
            }
        }
    }

    pub open spec fn session_replay(self, session_id: Seq<char>, n: nat) -> Seq<TurnReplayModel> {
        last_n(
            order_by(self.turns.filter(completed_plain(session_id)), by_seq()),
            n,
        ).map_values(as_replay())
    }
}

/// A text cut to `max` characters, with an ellipsis where something is missing.
pub fn truncate_chars_owned(value: &str, max: usize) -> (out: String)
    ensures
        out@ == truncated(value@, max as nat),
{
    if value.unicode_len() <= max {
        return value.to_owned();
    }
    let kept = value.substring_char(0, max);
    assert(kept@ =~= value@.take(max as int));
    kept.to_owned().concat("…")
}

fn text_or_empty(text: &Option<String>) -> (out: String)
    ensures
        out@ == or_empty(text.deep_view()),
{
    match text {
        Some(text) => text.clone(),
        None => String::new(),
    }
}

fn look_up(names: &Vec<(String, String)>, id: &str) -> (name: Option<String>)
    ensures
        name.deep_view() == called(names.deep_view(), id@),
{
    let mut i: usize = names.len();
    assert(names.deep_view().take(i as int) =~= names.deep_view());
    while i > 0
        invariant
            i <= names.len(),
            called(names.deep_view(), id@) == called(names.deep_view().take(i as int), id@),
        decreases i,
    {
        let ghost all = names.deep_view();
        assert(all.take(i as int).last() == names[i - 1].deep_view());
        assert(all.take(i as int).drop_last() =~= all.take(i - 1));
        i -= 1;
        if same(names[i].0.as_str(), id) {
            return Some(names[i].1.clone());
        }
    }
    None
}

fn encode_entry(e: &ReplayEntry) -> (json: String)
    ensures
        json.deep_view() == entry_json()(e.deep_view()),
{
    match e {
        ReplayEntry::Text { text } => "{\"kind\":\"text\",\"text\":".to_owned().concat(
            encode_text(text.as_str()).as_str(),
        ).concat("}"),
        ReplayEntry::ToolCall { name, arguments } => {
            "{\"kind\":\"tool_call\",\"name\":".to_owned().concat(
                encode_text(name.as_str()).as_str(),
            ).concat(",\"arguments\":").concat(encode_text(arguments.as_str()).as_str()).concat(
                "}",
            )
        },
        ReplayEntry::ToolResult { name, ok, output } => {
            "{\"kind\":\"tool_result\",\"name\":".to_owned().concat(
                encode_text(name.as_str()).as_str(),
            ).concat(",\"ok\":").concat(
                if *ok {
                    "true"
                } else {
                    "false"
                },
            ).concat(",\"output\":").concat(encode_text(output.as_str()).as_str()).concat("}")
        },
    }
}

/// The JSON form of a transcript.
pub fn encode_replay(entries: &Vec<ReplayEntry>) -> (json: String)
    ensures
        json@ == replay_json(entries.deep_view()),
{
    let parts = map_rows(entries, encode_entry, Ghost(entry_json()));
    "[".to_owned().concat(join(&parts, ",").as_str()).concat("]")
}

fn flush(entries: &mut Vec<ReplayEntry>, text: &str, Ghost(told): Ghost<Telling>)
    requires
        told.entries == old(entries).deep_view(),
        told.text == text@,
    ensures
        final(entries).deep_view() == told.flushed().entries,
{
    if !is_blank(text) {
        append(
            entries,
            ReplayEntry::Text { text: truncate_chars_owned(text, REPLAY_ENTRY_MAX_CHARS) },
        );
    }
}

fn tell(events: &Vec<JournalEventRow>, Ghost(turn_id): Ghost<Seq<char>>) -> (entries: Vec<
    ReplayEntry,
>)
    requires
        forall|i: int|
            0 <= i < events.deep_view().len() ==> told(turn_id)(
                #[trigger] events.deep_view()[i],
            ),
    ensures
        entries.deep_view() == telling(events.deep_view()).flushed().entries,
{
    let mut entries: Vec<ReplayEntry> = Vec::new();
    let mut names: Vec<(String, String)> = Vec::new();
    let mut text = String::new();
    assert(entries.deep_view() =~= Seq::<ReplayEntryModel>::empty());
    assert(names.deep_view() =~= Seq::<(Seq<char>, Seq<char>)>::empty());
    assert(events.deep_view().take(0) =~= Seq::<JournalEventRowModel>::empty());
    let mut i: usize = 0;
    while i < events.len()
        invariant
            i <= events.len(),
            forall|i: int|
                0 <= i < events.deep_view().len() ==> told(turn_id)(
                    #[trigger] events.deep_view()[i],
                ),
            telling(events.deep_view().take(i as int)) == (Telling {
                entries: entries.deep_view(),
                names: names.deep_view(),
                text: text@,
            }),
        decreases events.len() - i,
    {
        let ghost all = events.deep_view();
        let ghost sofar = telling(all.take(i as int));
        assert(all.take(i + 1).drop_last() =~= all.take(i as int));
        assert(all.take(i + 1).last() == events[i as int].deep_view());
        assert(told(turn_id)(all[i as int]));
        proof {
            reveal_strlit("assistant_content");
            reveal_strlit("tool_call");
            reveal_strlit("tool_result");
            assert("assistant_content"@.len() != "tool_call"@.len());
            assert("assistant_content"@.len() != "tool_result"@.len());
            assert("tool_call"@.len() != "tool_result"@.len());
        }
        let event = &events[i].event;
        let payload = text_or_empty(&event.text_payload);
        if same(event.kind.as_str(), "assistant_content") {
            text.append(payload.as_str());
        } else {
            flush(&mut entries, text.as_str(), Ghost(sofar));
            text = String::new();
            if same(event.kind.as_str(), "tool_call") {
                if let Some(name) = &event.name {
                    if let Some(id) = &event.call_id {
                        append(&mut names, (id.clone(), name.clone()));
                    }
                    append(
                        &mut entries,
                        ReplayEntry::ToolCall {
                            name: name.clone(),
                            arguments: truncate_chars_owned(
                                payload.as_str(),
                                REPLAY_ENTRY_MAX_CHARS,
                            ),
                        },
                    );
                }
            } else {
                let known = match &event.call_id {
                    Some(id) => look_up(&names, id.as_str()),
                    None => None,
                };
                let name = match known {
                    Some(name) => name,
                    None => text_or_empty(&event.name),
                };
                if !name.as_str().is_empty() {
                    append(
                        &mut entries,
                        ReplayEntry::ToolResult {
                            name,
                            ok: match event.ok {
                                Some(ok) => ok,
                                None => true,
                            },
                            output: truncate_chars_owned(payload.as_str(), REPLAY_ENTRY_MAX_CHARS),
                        },
                    );
                }
            }
        }
        i += 1;
    }
    assert(events.deep_view().take(i as int) =~= events.deep_view());
    flush(&mut entries, text.as_str(), Ghost(telling(events.deep_view())));
    entries
}

/// A transcript without its oldest entries, as many as must go for it to be
/// short enough.
pub fn fit_budget(entries: Vec<ReplayEntry>) -> (out: Vec<ReplayEntry>)
    ensures
        out.deep_view() == within_budget(entries.deep_view()),
{
    let mut out = entries;
    let ghost start = out.deep_view();
    while out.len() > 1 && encode_replay(&out).as_str().len() > REPLAY_JOURNAL_MAX_CHARS
        invariant
            within_budget(out.deep_view()) == within_budget(start),
        ensures
            within_budget(start) == out.deep_view(),
        decreases out.len(),
    {
        let ghost before = out.deep_view();
        out.remove(0);
        assert(out.deep_view() =~= before.drop_first());
    }
    out
}

impl ConversationDb {
    /// Folds the journal of a finished turn into its display transcript: the
    /// prose and the tool calls in their order, and nothing of what only the
    /// live view needs.
    pub fn store_replay_journal(&mut self, turn_id: &str)
        ensures
            final(self)@ == old(self)@.store_replay_journal(turn_id@),
    {
        let mine = |r: &JournalEventRow| -> (b: bool)
            ensures
                b == told(turn_id@)(r.deep_view()),
            {
                same(r.turn_id.as_str(), turn_id) && (same(
                    r.event.kind.as_str(),
                    "assistant_content",
                ) || same(r.event.kind.as_str(), "tool_call") || same(
                    r.event.kind.as_str(),
                    "tool_result",
                ))
            };
        let rows = select(&self.events, &mine, Ghost(told(turn_id@)));
        let events = sort_events(&rows);
        proof {
            let picked = self@.events.filter(told(turn_id@));
            lemma_filter_holds(self@.events, told(turn_id@));
            lemma_order_holds(picked, by_event_id(), told(turn_id@));
        }
        let entries = tell(&events, Ghost(turn_id@));
        if entries.len() == 0 {
            assert(entries.deep_view().len() == 0);
            return;
        }
        let entries = fit_budget(entries);
        let this = |r: &TurnRow| -> (b: bool)
            ensures
                b == with_turn_id(turn_id@)(r.deep_view()),
            { same(r.turn_id.as_str(), turn_id) };
        let store = |r: &TurnRow| -> (n: TurnRow)
            ensures
                n.deep_view() == with_replay(entries.deep_view())(r.deep_view()),
            {
                let mut n = r.dup();
                n.replay_journal = Some(entries.dup());
                n
            };
        self.turns = update(
            &self.turns,
            &this,
            &store,
            Ghost(with_turn_id(turn_id@)),
            Ghost(with_replay(entries.deep_view())),
        );
    }

    /// The transcripts of the last `limit` finished turns of a session, oldest
    /// first.
    pub fn session_replay(&self, session_id: &str, limit: usize) -> (turns: Vec<TurnReplay>)
        ensures
            turns.deep_view() == self@.session_replay(session_id@, limit as nat),
    {
        let done = |r: &TurnRow| -> (b: bool)
            ensures
                b == completed_plain(session_id@)(r.deep_view()),
            {
                same(r.session_id.as_str(), session_id) && !r.hidden && !r.is_summary && same(
                    r.status.as_str(),
                    "completed",
                )
            };
        let rows = select(&self.turns, &done, Ghost(completed_plain(session_id@)));
        let rows = sort_by_seq(&rows);
        let start: usize = rows.len().saturating_sub(limit);
        let mut turns: Vec<TurnReplay> = Vec::new();
        let mut i: usize = start;
        while i < rows.len()
            invariant
                start <= i <= rows.len(),
                turns.len() == i - start,
                forall|j: int|
                    0 <= j < i - start ==> #[trigger] turns[j].deep_view() == as_replay()(
                        rows[start + j].deep_view(),
                    ),
            decreases rows.len() - i,
        {
            let r = &rows[i];
            let none: Vec<ReplayEntry> = Vec::new();
            assert(none.deep_view() =~= Seq::<ReplayEntryModel>::empty());
            turns.push(
                TurnReplay {
                    display_content: r.display_content.clone(),
                    assistant_content: r.assistant_content.clone(),
                    entries: match &r.replay_journal {
                        Some(entries) => entries.dup(),
                        None => none,
                    },
                    is_job_wake: starts_but_case(
                        r.user_content.as_str(),
                        "<background-job-report>",
                    ),
                },
            );
            i += 1;
        }
        assert(turns.deep_view() =~= last_n(rows.deep_view(), limit as nat).map_values(
            as_replay(),
        ));
        turns
    }
}

} // verus!
